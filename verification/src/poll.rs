//! The decisions of the pages' polling loops.
//!
//! Each loop fetches, hands the outcome to a step function here, and then
//! publishes what the step says has changed. Publishing a value notifies
//! every reader even when it is unchanged, which rebuilds the parts of the
//! page that read it; so a step reports a change exactly when the value
//! shown differs from the one before.

use vstd::prelude::*;
use crate::counter::{ReceivedCounter, CounterView};
use crate::names::{texts, name_set, lists_name, lists, same_list, same_names, copy_names};
use crate::reading::Reading;

verus! {

/// The state of the connection to the backend as the dashboard shows it.
#[derive(Clone, Copy, Debug, PartialEq, Eq, Structural)]
pub enum Conn {
    /// No poll has answered yet.
    Connecting,
    /// The last poll was answered.
    Live,
    /// The last poll failed.
    Offline,
}

/// How the dashboard's header shows the connection state.
pub struct ConnIndicator {
    pub dot: &'static str,
    pub ping: &'static str,
    pub label: &'static str,
    pub label_colour: &'static str,
}

/// The indicator of connection state `c`.
pub fn conn_indicator(c: Conn) -> (i: ConnIndicator)
    ensures
        c == Conn::Live ==> i.dot@ == "bg-emerald-500"@ && i.ping@ == "animate-live-ping bg-emerald-400"@
            && i.label@ == "Live"@ && i.label_colour@ == "text-emerald-600"@,
        c == Conn::Connecting ==> i.dot@ == "bg-amber-400"@ && i.ping@ == "animate-live-ping bg-amber-300"@
            && i.label@ == "Verbinde…"@ && i.label_colour@ == "text-amber-600"@,
        c == Conn::Offline ==> i.dot@ == "bg-red-500"@ && i.ping@ == ""@
            && i.label@ == "Offline"@ && i.label_colour@ == "text-red-600"@,
{
    match c {
        Conn::Live => ConnIndicator {
            dot: "bg-emerald-500",
            ping: "animate-live-ping bg-emerald-400",
            label: "Live",
            label_colour: "text-emerald-600",
        },
        Conn::Connecting => ConnIndicator {
            dot: "bg-amber-400",
            ping: "animate-live-ping bg-amber-300",
            label: "Verbinde…",
            label_colour: "text-amber-600",
        },
        Conn::Offline => ConnIndicator {
            dot: "bg-red-500",
            ping: "",
            label: "Offline",
            label_colour: "text-red-600",
        },
    }
}

/// What the dashboard shows.
pub struct DashboardView {
    /// The satellite list has been answered at least once.
    pub sat_loaded: bool,
    pub conn: Conn,
    /// The satellites, each with its own chart, in the order of the answer.
    pub satellites: Seq<Seq<char>>,
    pub counter: CounterView,
}

/// What a poll of the satellite list changed on the dashboard.
pub struct ListChanges {
    pub loaded: bool,
    pub conn: bool,
    pub satellites: bool,
}

/// What a poll of the newest measurements changed on the dashboard.
pub struct LogChanges {
    /// The count of received measurements and the table are published:
    /// after every answered poll.
    pub table: bool,
    pub conn: bool,
}

/// The dashboard after a poll of the satellite list: `answer` is the list
/// the backend answered with, or nothing when the poll failed.
pub open spec fn after_list(v: DashboardView, answer: Option<Seq<Seq<char>>>) -> DashboardView {
    match answer {
        Some(names) => DashboardView { sat_loaded: true, conn: Conn::Live, satellites: names, ..v },
        None => DashboardView { conn: Conn::Offline, ..v },
    }
}

/// The dashboard after a poll of the newest measurements: `answer` is the
/// measurements answered, or nothing when the poll failed.
pub open spec fn after_logs(v: DashboardView, answer: Option<Seq<Reading>>) -> DashboardView {
    match answer {
        Some(batch) => DashboardView { conn: Conn::Live, counter: v.counter.after(batch), ..v },
        None => DashboardView { conn: Conn::Offline, ..v },
    }
}

/// The state of the dashboard's two polling loops.
pub struct Dashboard {
    sat_loaded: bool,
    conn: Conn,
    satellites: Vec<String>,
    counter: ReceivedCounter,
}

impl View for Dashboard {
    type V = DashboardView;

    closed spec fn view(&self) -> DashboardView {
        DashboardView {
            sat_loaded: self.sat_loaded,
            conn: self.conn,
            satellites: texts(self.satellites@),
            counter: self.counter@,
        }
    }
}

impl Dashboard {
    pub closed spec fn wf(self) -> bool {
        self.counter.wf()
    }

    /// The dashboard before any poll.
    pub fn new() -> (d: Dashboard)
        ensures
            d.wf(),
            !d@.sat_loaded,
            d@.conn == Conn::Connecting,
            d@.satellites == Seq::<Seq<char>>::empty(),
            d@.counter.total == 0,
            d@.counter.newest == Map::<(Seq<char>, Seq<char>), u64>::empty(),
    {
        let d = Dashboard {
            sat_loaded: false,
            conn: Conn::Connecting,
            satellites: Vec::new(),
            counter: ReceivedCounter::new(),
        };
        assert(d@.satellites =~= Seq::<Seq<char>>::empty());
        d
    }

    /// Takes in a poll of the satellite list.
    pub fn on_satellite_list(&mut self, answer: Option<Vec<String>>) -> (c: ListChanges)
        requires
            old(self).wf(),
        ensures
            final(self).wf(),
            final(self)@ == after_list(old(self)@, match answer { Some(n) => Some(texts(n@)), None => None }),
            c.loaded == (final(self)@.sat_loaded != old(self)@.sat_loaded),
            c.conn == (final(self)@.conn != old(self)@.conn),
            c.satellites == (final(self)@.satellites != old(self)@.satellites),
    {
        match answer {
            Some(names) => {
                let loaded = !self.sat_loaded;
                self.sat_loaded = true;
                let conn = self.conn != Conn::Live;
                self.conn = Conn::Live;
                let differs = !same_list(&names, &self.satellites);
                if differs {
                    self.satellites = names;
                }
                ListChanges { loaded, conn, satellites: differs }
            },
            None => {
                let conn = self.conn != Conn::Offline;
                self.conn = Conn::Offline;
                ListChanges { loaded: false, conn, satellites: false }
            },
        }
    }

    /// Takes in a poll of the newest measurements over all satellites.
    pub fn on_log_poll(&mut self, answer: Option<&Vec<Reading>>) -> (c: LogChanges)
        requires
            old(self).wf(),
            answer matches Some(b) ==> old(self)@.counter.total + b@.len() <= u64::MAX,
        ensures
            final(self).wf(),
            final(self)@ == after_logs(old(self)@, match answer { Some(b) => Some(b@), None => None }),
            c.table == answer is Some,
            c.conn == (final(self)@.conn != old(self)@.conn),
    {
        match answer {
            Some(batch) => {
                self.counter.record_batch(batch);
                let conn = self.conn != Conn::Live;
                self.conn = Conn::Live;
                LogChanges { table: true, conn }
            },
            None => {
                let conn = self.conn != Conn::Offline;
                self.conn = Conn::Offline;
                LogChanges { table: false, conn }
            },
        }
    }

    /// Whether the satellite list has been answered at least once.
    pub fn sat_loaded(&self) -> (b: bool)
        ensures
            b == self@.sat_loaded,
    {
        self.sat_loaded
    }

    /// The connection state.
    pub fn conn(&self) -> (c: Conn)
        ensures
            c == self@.conn,
    {
        self.conn
    }

    /// The satellites shown.
    pub fn satellites(&self) -> (s: &Vec<String>)
        ensures
            texts(s@) == self@.satellites,
    {
        &self.satellites
    }

    /// The number of measurements received so far.
    pub fn received(&self) -> (t: u64)
        ensures
            t == self@.counter.total,
    {
        self.counter.total()
    }
}

/// The same answer to the satellite list, polled again, changes nothing on
/// the dashboard; in particular the charts are not rebuilt.
pub proof fn law_repeated_list_changes_nothing(v: DashboardView, answer: Option<Seq<Seq<char>>>)
    ensures
        after_list(after_list(v, answer), answer) == after_list(v, answer),
{
}

/// The connection state follows the latest poll of either loop: live after
/// an answer, offline after a failure.
pub proof fn law_conn_follows_last_poll(v: DashboardView, lists: Option<Seq<Seq<char>>>, logs: Option<Seq<Reading>>)
    ensures
        after_list(v, lists).conn == if lists is Some { Conn::Live } else { Conn::Offline },
        after_logs(v, logs).conn == if logs is Some { Conn::Live } else { Conn::Offline },
        after_list(v, lists).counter == v.counter,
        after_logs(v, logs).satellites == v.satellites,
{
}

/// The dashboard's count of received measurements never falls, whatever
/// the polls answer; a failed poll leaves it as it was.
pub proof fn law_received_never_falls(v: DashboardView, lists: Option<Seq<Seq<char>>>, logs: Option<Seq<Reading>>)
    ensures
        after_list(v, lists).counter.total == v.counter.total,
        after_logs(v, logs).counter.total >= v.counter.total,
        logs is None ==> after_logs(v, logs).counter == v.counter,
{
    if let Some(b) = logs {
        crate::counter::law_recording_is_monotone(v.counter, b);
    }
}

/// What a sensor chart's polling knows.
pub struct ChartPollView {
    /// The last fetch failed: the card shows that it is reconnecting.
    pub stale: bool,
    /// How many polls of the measurements were answered, counted up to two.
    pub batches: nat,
}

/// What a chart's loop does after the sensor list was polled.
#[derive(Clone, Copy, Debug, PartialEq, Eq, Structural)]
pub enum SensorListNext {
    /// The poll failed: wait and ask again.
    Retry,
    /// The satellite has no sensors: there is nothing to poll.
    Stop,
    /// Poll the measurements from now on.
    Poll,
}

/// What a poll of the sensor list changed and what comes next.
pub struct SensorListStep {
    pub stale: bool,
    pub next: SensorListNext,
}

/// What a poll of a chart's measurements changed.
pub struct ChartLogStep {
    /// The measurements are published: after every answered poll.
    pub logs: bool,
    pub batches: bool,
    pub stale: bool,
}

/// The chart's polling state after a poll of its measurements.
pub open spec fn chart_after_logs(v: ChartPollView, answered: bool) -> ChartPollView {
    if answered {
        ChartPollView { stale: false, batches: if v.batches < 2 { v.batches + 1 } else { v.batches } }
    } else {
        ChartPollView { stale: true, ..v }
    }
}

/// The chart's polling state after a run of polls, `answers` telling for
/// each whether it was answered.
pub open spec fn chart_after_all(v: ChartPollView, answers: Seq<bool>) -> ChartPollView
    decreases answers.len(),
{
    if answers.len() == 0 {
        v
    } else {
        chart_after_logs(chart_after_all(v, answers.drop_last()), answers.last())
    }
}

/// How many polls of a run were answered.
pub open spec fn answered_count(answers: Seq<bool>) -> nat
    decreases answers.len(),
{
    if answers.len() == 0 {
        0
    } else {
        answered_count(answers.drop_last()) + if answers.last() { 1nat } else { 0nat }
    }
}

/// The polling state of one sensor chart.
pub struct ChartPoll {
    stale: bool,
    batches: u32,
}

impl View for ChartPoll {
    type V = ChartPollView;

    closed spec fn view(&self) -> ChartPollView {
        ChartPollView { stale: self.stale, batches: self.batches as nat }
    }
}

impl ChartPoll {
    pub closed spec fn wf(self) -> bool {
        self.batches <= 2
    }

    /// A chart before its first poll.
    pub fn new() -> (c: ChartPoll)
        ensures
            c.wf(),
            c@ == (ChartPollView { stale: false, batches: 0 }),
    {
        ChartPoll { stale: false, batches: 0 }
    }

    /// Takes in a poll of the sensor list: the number of sensors, or
    /// nothing when the poll failed.
    pub fn on_sensor_list(&mut self, answer: Option<usize>) -> (step: SensorListStep)
        requires
            old(self).wf(),
        ensures
            final(self).wf(),
            final(self)@.batches == old(self)@.batches,
            final(self)@.stale == (answer is None),
            step.stale == (final(self)@.stale != old(self)@.stale),
            step.next == match answer {
                None => SensorListNext::Retry,
                Some(0) => SensorListNext::Stop,
                Some(_) => SensorListNext::Poll,
            },
    {
        match answer {
            Some(count) => {
                let changed = self.stale;
                self.stale = false;
                SensorListStep { stale: changed, next: if count == 0 { SensorListNext::Stop } else { SensorListNext::Poll } }
            },
            None => {
                let changed = !self.stale;
                self.stale = true;
                SensorListStep { stale: changed, next: SensorListNext::Retry }
            },
        }
    }

    /// Takes in a poll of the chart's measurements: whether it was answered.
    pub fn on_logs(&mut self, answered: bool) -> (step: ChartLogStep)
        requires
            old(self).wf(),
        ensures
            final(self).wf(),
            final(self)@ == chart_after_logs(old(self)@, answered),
            final(self)@.stale == !answered,
            answered ==> final(self)@.batches == if old(self)@.batches < 2 { old(self)@.batches + 1 } else { 2 },
            !answered ==> final(self)@.batches == old(self)@.batches,
            step.logs == answered,
            step.batches == (final(self)@.batches != old(self)@.batches),
            step.stale == (final(self)@.stale != old(self)@.stale),
    {
        if answered {
            let bump = self.batches < 2;
            if bump {
                self.batches = self.batches + 1;
            }
            let changed = self.stale;
            self.stale = false;
            ChartLogStep { logs: true, batches: bump, stale: changed }
        } else {
            let changed = !self.stale;
            self.stale = true;
            ChartLogStep { logs: false, batches: false, stale: changed }
        }
    }

    /// Whether the card shows that it is reconnecting.
    pub fn stale(&self) -> (b: bool)
        ensures
            b == self@.stale,
    {
        self.stale
    }

    /// Whether the series are drawn in with an animation now: only when the
    /// first measurements have arrived, not at every later poll.
    pub fn draws_in(&self) -> (b: bool)
        ensures
            b == (self@.batches == 1),
    {
        self.batches == 1
    }
}

/// Over a run of polls, the chart counts the answered ones up to two, so it
/// draws its series in with an animation exactly while only the first
/// answer has arrived; failed polls leave the count alone.
pub proof fn law_chart_draws_in_once(answers: Seq<bool>)
    ensures
        chart_after_all(ChartPollView { stale: false, batches: 0 }, answers).batches
            == if answered_count(answers) < 2 { answered_count(answers) } else { 2 },
        (chart_after_all(ChartPollView { stale: false, batches: 0 }, answers).batches == 1)
            == (answered_count(answers) == 1),
    decreases answers.len(),
{
    if answers.len() > 0 {
        law_chart_draws_in_once(answers.drop_last());
    }
}

/// What the satellite page shows.
pub struct SatellitePageView {
    /// The satellite list has been answered at least once.
    pub loaded: bool,
    /// The last poll failed: the page says that the backend is unreachable.
    pub failed: bool,
    pub satellites: Seq<Seq<char>>,
}

/// What a poll of the satellite list changed on the satellite page.
pub struct SatellitePageChanges {
    /// The loaded flag is published after every answered poll.
    pub loaded: bool,
    pub satellites: bool,
    pub failed: bool,
}

/// The satellite page after a poll of the satellite list.
pub open spec fn page_after_list(v: SatellitePageView, answer: Option<Seq<Seq<char>>>) -> SatellitePageView {
    match answer {
        Some(names) => SatellitePageView { loaded: true, failed: false, satellites: names },
        None => SatellitePageView { failed: true, ..v },
    }
}

/// The polling state of the satellite page.
pub struct SatellitePage {
    loaded: bool,
    failed: bool,
    satellites: Vec<String>,
}

impl View for SatellitePage {
    type V = SatellitePageView;

    closed spec fn view(&self) -> SatellitePageView {
        SatellitePageView { loaded: self.loaded, failed: self.failed, satellites: texts(self.satellites@) }
    }
}

impl SatellitePage {
    /// The page before its first poll.
    pub fn new() -> (p: SatellitePage)
        ensures
            !p@.loaded,
            !p@.failed,
            p@.satellites == Seq::<Seq<char>>::empty(),
    {
        let p = SatellitePage { loaded: false, failed: false, satellites: Vec::new() };
        assert(p@.satellites =~= Seq::<Seq<char>>::empty());
        p
    }

    /// Takes in a poll of the satellite list.
    pub fn on_satellite_list(&mut self, answer: Option<Vec<String>>) -> (c: SatellitePageChanges)
        ensures
            final(self)@ == page_after_list(old(self)@, match answer { Some(n) => Some(texts(n@)), None => None }),
            c.loaded == answer is Some,
            c.satellites == (final(self)@.satellites != old(self)@.satellites),
            c.failed == (final(self)@.failed != old(self)@.failed),
    {
        match answer {
            Some(names) => {
                self.loaded = true;
                let differs = !same_list(&names, &self.satellites);
                if differs {
                    self.satellites = names;
                }
                let failed = self.failed;
                self.failed = false;
                SatellitePageChanges { loaded: true, satellites: differs, failed }
            },
            None => {
                let failed = !self.failed;
                self.failed = true;
                SatellitePageChanges { loaded: false, satellites: false, failed }
            },
        }
    }

    /// Whether the list has been answered at least once.
    pub fn loaded(&self) -> (b: bool)
        ensures
            b == self@.loaded,
    {
        self.loaded
    }

    /// Whether the last poll failed.
    pub fn failed(&self) -> (b: bool)
        ensures
            b == self@.failed,
    {
        self.failed
    }

    /// The satellites shown.
    pub fn satellites(&self) -> (s: &Vec<String>)
        ensures
            texts(s@) == self@.satellites,
    {
        &self.satellites
    }
}

/// What the orbit page shows.
pub struct OrbitPageView {
    pub loaded: bool,
    /// The last poll failed: the page says that the backend is unreachable.
    pub offline: bool,
    /// The satellites that have a card.
    pub cards: Set<Seq<char>>,
}

/// What a poll changed on the orbit page.
pub struct OrbitChanges {
    /// The set of satellites changed: the cards are laid out anew.
    pub reorder: bool,
    /// The measurements of the cards are published: after every answered
    /// poll.
    pub values: bool,
    pub loaded: bool,
    pub offline: bool,
}

/// The orbit page after a poll: `answer` is the set of satellites for which
/// a card could be built, or nothing when the satellite list failed.
pub open spec fn orbit_after_poll(v: OrbitPageView, answer: Option<Set<Seq<char>>>) -> OrbitPageView {
    match answer {
        Some(names) => OrbitPageView { loaded: true, offline: false, cards: names },
        None => OrbitPageView { offline: true, ..v },
    }
}

/// The polling state of the orbit page.
pub struct OrbitPage {
    loaded: bool,
    offline: bool,
    cards: Vec<String>,
}

impl View for OrbitPage {
    type V = OrbitPageView;

    closed spec fn view(&self) -> OrbitPageView {
        OrbitPageView { loaded: self.loaded, offline: self.offline, cards: name_set(self.cards@) }
    }
}

impl OrbitPage {
    /// The page before its first poll.
    pub fn new() -> (p: OrbitPage)
        ensures
            !p@.loaded,
            !p@.offline,
            p@.cards == Set::<Seq<char>>::empty(),
    {
        let p = OrbitPage { loaded: false, offline: false, cards: Vec::new() };
        assert(p@.cards =~= Set::<Seq<char>>::empty());
        p
    }

    /// Takes in a poll: the satellites for which a card could be built, or
    /// nothing when the satellite list failed. The cards are laid out anew
    /// only when that set of satellites changed.
    pub fn on_poll(&mut self, answer: Option<Vec<String>>) -> (c: OrbitChanges)
        ensures
            final(self)@ == orbit_after_poll(old(self)@, match answer { Some(n) => Some(name_set(n@)), None => None }),
            c.reorder == (final(self)@.cards != old(self)@.cards),
            answer matches Some(n) ==> final(self)@.cards == name_set(n@)
                && c.reorder == (name_set(n@) != old(self)@.cards),
            answer is None ==> final(self)@.cards == old(self)@.cards && !c.reorder,
            c.values == answer is Some,
            c.loaded == (final(self)@.loaded != old(self)@.loaded),
            c.offline == (final(self)@.offline != old(self)@.offline),
    {
        match answer {
            Some(names) => {
                let reorder = !same_names(&names, &self.cards);
                if reorder {
                    self.cards = copy_names(&names);
                    proof {
                        assert(name_set(self.cards@) =~= name_set(names@)) by {
                            assert forall|n: Seq<char>| #[trigger] name_set(self.cards@).contains(n) == name_set(names@).contains(n) by {
                                if name_set(self.cards@).contains(n) {
                                    let j = choose|j: int| 0 <= j < self.cards@.len() && self.cards@[j]@ == n;
                                    assert(texts(self.cards@).len() == texts(names@).len());
                                    assert(texts(self.cards@)[j] == texts(names@)[j]);
                                    assert(names@[j]@ == n);
                                }
                                if name_set(names@).contains(n) {
                                    let j = choose|j: int| 0 <= j < names@.len() && names@[j]@ == n;
                                    assert(texts(self.cards@).len() == texts(names@).len());
                                    assert(texts(self.cards@)[j] == texts(names@)[j]);
                                    assert(self.cards@[j]@ == n);
                                }
                            }
                        }
                    }
                }
                let loaded = !self.loaded;
                self.loaded = true;
                let offline = self.offline;
                self.offline = false;
                OrbitChanges { reorder, values: true, loaded, offline }
            },
            None => {
                let offline = !self.offline;
                self.offline = true;
                OrbitChanges { reorder: false, values: false, loaded: false, offline }
            },
        }
    }

    /// Whether a poll has been answered.
    pub fn loaded(&self) -> (b: bool)
        ensures
            b == self@.loaded,
    {
        self.loaded
    }

    /// Whether the last poll failed.
    pub fn offline(&self) -> (b: bool)
        ensures
            b == self@.offline,
    {
        self.offline
    }
}

/// The same satellites answered again never lay out the orbit cards anew,
/// whatever order they come in.
pub proof fn law_orbit_cards_stay(v: OrbitPageView, answer: Option<Set<Seq<char>>>)
    ensures
        orbit_after_poll(orbit_after_poll(v, answer), answer) == orbit_after_poll(v, answer),
        answer is None ==> orbit_after_poll(v, answer).cards == v.cards,
{
}

/// The polling of a satellite card: its specification never changes, so it
/// is asked for until it has been answered once, and never again.
pub struct CardPoll {
    have_specs: bool,
}

impl CardPoll {
    /// A card before its first poll.
    pub fn new() -> (c: CardPoll)
        ensures
            c.wants_specs_spec(),
    {
        CardPoll { have_specs: false }
    }

    /// Whether the card still asks for the specification.
    pub closed spec fn wants_specs_spec(self) -> bool {
        !self.have_specs
    }

    /// Whether the card still asks for the specification.
    pub fn wants_specs(&self) -> (b: bool)
        ensures
            b == self.wants_specs_spec(),
    {
        !self.have_specs
    }

    /// Takes in a poll of the specification: whether it was answered.
    pub fn on_specs(&mut self, answered: bool)
        ensures
            final(self).wants_specs_spec() == (old(self).wants_specs_spec() && !answered),
    {
        if answered {
            self.have_specs = true;
        }
    }
}

/// Once a page has been answered it never shows its loading placeholders
/// again, whatever later polls bring.
pub proof fn law_loaded_stays(
    d: DashboardView,
    lists: Option<Seq<Seq<char>>>,
    logs: Option<Seq<Reading>>,
    p: SatellitePageView,
    o: OrbitPageView,
    cards: Option<Set<Seq<char>>>,
)
    ensures
        d.sat_loaded ==> after_list(d, lists).sat_loaded && after_logs(d, logs).sat_loaded,
        p.loaded ==> page_after_list(p, lists).loaded,
        o.loaded ==> orbit_after_poll(o, cards).loaded,
{
}

/// The specifications that a page keeps after `name`'s was asked for:
/// an answered specification is kept, a failed one is not.
pub open spec fn specs_after(kept: Set<Seq<char>>, name: Seq<char>, answered: bool) -> Set<Seq<char>> {
    if answered { kept.insert(name) } else { kept }
}

/// The satellites whose specification the orbit page keeps. A
/// specification never changes, so each satellite's is asked for until it
/// has been answered once, and then kept.
pub struct SpecsKept {
    names: Vec<String>,
}

impl View for SpecsKept {
    type V = Set<Seq<char>>;

    closed spec fn view(&self) -> Set<Seq<char>> {
        name_set(self.names@)
    }
}

impl SpecsKept {
    /// No specification kept yet.
    pub fn new() -> (k: SpecsKept)
        ensures
            k@ == Set::<Seq<char>>::empty(),
    {
        let k = SpecsKept { names: Vec::new() };
        assert(k@ =~= Set::<Seq<char>>::empty());
        k
    }

    /// Whether the specification of satellite `name` is still to be asked for.
    pub fn wants_specs(&self, name: &String) -> (b: bool)
        ensures
            b == !self@.contains(name@),
    {
        !lists(&self.names, name)
    }

    /// Takes in a poll of satellite `name`'s specification: whether it was
    /// answered.
    pub fn on_specs(&mut self, name: &String, answered: bool)
        ensures
            final(self)@ == specs_after(old(self)@, name@, answered),
    {
        if answered && !lists(&self.names, name) {
            let ghost before = self.names@;
            self.names.push(name.clone());
            assert(self@ =~= old(self)@.insert(name@)) by {
                assert forall|n: Seq<char>| #[trigger] self@.contains(n) == old(self)@.insert(name@).contains(n) by {
                    if lists_name(self.names@, n) {
                        let j = choose|j: int| 0 <= j < self.names@.len() && self.names@[j]@ == n;
                        if j < before.len() {
                            assert(before[j] == self.names@[j]);
                        }
                    }
                    if lists_name(before, n) {
                        let j = choose|j: int| 0 <= j < before.len() && before[j]@ == n;
                        assert(self.names@[j] == before[j]);
                    }
                    if n == name@ {
                        assert(self.names@[before.len() as int]@ == n);
                    }
                }
            }
        } else if answered {
            assert(self@ =~= old(self)@.insert(name@));
        }
    }
}

/// Once a satellite's specification has been answered it is never asked for
/// again, whatever later polls of it bring; the others' stay as they were.
pub proof fn law_specs_fetched_once(kept: Set<Seq<char>>, name: Seq<char>, other: Seq<char>, later: bool)
    ensures
        specs_after(specs_after(kept, name, true), other, later).contains(name),
        other != name ==> (specs_after(kept, name, true).contains(other) == kept.contains(other)),
{
}

/// An answered poll of a chart's measurements always clears the
/// reconnecting notice, however many polls were answered before; a failed
/// one always shows it.
pub proof fn law_answer_clears_stale(v: ChartPollView, answered: bool)
    requires
        v.batches <= 2,
    ensures
        chart_after_logs(v, answered).stale == !answered,
        chart_after_logs(v, answered).batches <= 2,
{
}

/// After an answered poll the orbit page has a card for exactly the
/// satellites answered: a satellite no longer answered loses its card, and
/// the cards are laid out anew exactly when that set differs from before.
pub proof fn law_orbit_cards_are_answered(v: OrbitPageView, names: Set<Seq<char>>)
    ensures
        orbit_after_poll(v, Some(names)).cards == names,
        (orbit_after_poll(v, Some(names)).cards != v.cards) == (names != v.cards),
{
}

} // verus!
