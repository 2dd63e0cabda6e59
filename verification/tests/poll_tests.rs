use frontend::health::{component_badge, Component};
use frontend::poll::{
    conn_indicator, CardPoll, ChartPoll, SpecsKept, Conn, Dashboard, OrbitPage, SatellitePage, SensorListNext,
};
use frontend::reading::Reading;
use frontend::satellite::{
    card_picture, card_picture_path, float_delay_ms, has_signal, is_tank, newest_position, sensor_chip_class,
};
use frontend::reading::Metric;

fn names(v: &[&str]) -> Vec<String> {
    v.iter().map(|s| s.to_string()).collect()
}

fn reading(sensor: &str, ts: u64, temp: bool, pres: bool) -> Reading {
    Reading {
        satellite: "ISS".to_string(),
        sensor: sensor.to_string(),
        timestamp: ts,
        has_temperature: temp,
        has_pressure: pres,
    }
}

#[test]
fn dashboard_publishes_only_changes() {
    let mut d = Dashboard::new();
    assert_eq!(d.conn(), Conn::Connecting);
    let c = d.on_satellite_list(Some(names(&["ISS", "Hubble"])));
    assert!(c.loaded && c.conn && c.satellites);
    assert_eq!(d.satellites(), &names(&["ISS", "Hubble"]));
    let c = d.on_satellite_list(Some(names(&["ISS", "Hubble"])));
    assert!(!c.loaded && !c.conn && !c.satellites);
    let c = d.on_satellite_list(Some(names(&["Hubble", "ISS"])));
    assert!(!c.loaded && !c.conn && c.satellites);
    let c = d.on_satellite_list(None);
    assert!(c.conn && !c.loaded && !c.satellites);
    assert_eq!(d.conn(), Conn::Offline);
    assert!(d.sat_loaded());
    let c = d.on_satellite_list(None);
    assert!(!c.conn);
}

#[test]
fn dashboard_log_polls_count_and_set_connection() {
    let mut d = Dashboard::new();
    let batch = vec![reading("a", 1, true, false), reading("b", 1, false, true)];
    let c = d.on_log_poll(Some(&batch));
    assert!(c.table && c.conn);
    assert_eq!(d.received(), 2);
    assert_eq!(d.conn(), Conn::Live);
    let c = d.on_log_poll(Some(&batch));
    assert!(c.table && !c.conn);
    assert_eq!(d.received(), 2);
    let c = d.on_log_poll(None);
    assert!(!c.table && c.conn);
    assert_eq!(d.received(), 2);
    assert_eq!(d.conn(), Conn::Offline);
}

#[test]
fn connection_indicators() {
    let live = conn_indicator(Conn::Live);
    assert_eq!((live.dot, live.label, live.label_colour), ("bg-emerald-500", "Live", "text-emerald-600"));
    let off = conn_indicator(Conn::Offline);
    assert_eq!((off.dot, off.ping, off.label), ("bg-red-500", "", "Offline"));
    let wait = conn_indicator(Conn::Connecting);
    assert_eq!(wait.label, "Verbinde…");
}

#[test]
fn chart_poll_draws_in_once() {
    let mut p = ChartPoll::new();
    let s = p.on_sensor_list(None);
    assert!(s.stale && s.next == SensorListNext::Retry && p.stale());
    let s = p.on_sensor_list(Some(4));
    assert!(s.stale && s.next == SensorListNext::Poll && !p.stale());
    assert!(!p.draws_in());
    let l = p.on_logs(true);
    assert!(l.logs && l.batches && !l.stale);
    assert!(p.draws_in());
    let l = p.on_logs(false);
    assert!(!l.logs && !l.batches && l.stale);
    assert!(p.draws_in());
    let l = p.on_logs(true);
    assert!(l.batches && l.stale);
    assert!(!p.draws_in());
    let l = p.on_logs(true);
    assert!(!l.batches && !l.stale);
    assert!(!p.draws_in());
}

#[test]
fn chart_without_sensors_stops() {
    let mut p = ChartPoll::new();
    let s = p.on_sensor_list(Some(0));
    assert_eq!(s.next, SensorListNext::Stop);
    assert!(!s.stale);
}

#[test]
fn satellite_page_polls() {
    let mut p = SatellitePage::new();
    let c = p.on_satellite_list(None);
    assert!(c.failed && !c.loaded && p.failed() && !p.loaded());
    let c = p.on_satellite_list(Some(names(&["ISS"])));
    assert!(c.loaded && c.satellites && c.failed);
    let c = p.on_satellite_list(Some(names(&["ISS"])));
    assert!(c.loaded && !c.satellites && !c.failed);
    assert_eq!(p.satellites(), &names(&["ISS"]));
}

#[test]
fn orbit_cards_reorder_only_on_new_satellites() {
    let mut o = OrbitPage::new();
    let c = o.on_poll(Some(names(&["ISS", "Hubble"])));
    assert!(c.reorder && c.values && c.loaded && !c.offline);
    let c = o.on_poll(Some(names(&["Hubble", "ISS"])));
    assert!(!c.reorder && c.values && !c.loaded);
    let c = o.on_poll(None);
    assert!(!c.reorder && !c.values && c.offline && o.offline());
    let c = o.on_poll(Some(names(&["Hubble", "ISS", "JWST"])));
    assert!(c.reorder && c.offline && !o.offline());
}

#[test]
fn signal_freshness() {
    assert!(has_signal(100, Some(71)));
    assert!(has_signal(100, Some(70)));
    assert!(!has_signal(100, Some(69)));
    assert!(has_signal(100, Some(150)));
    assert!(!has_signal(100, None));
}

#[test]
fn card_pictures_and_delays() {
    assert_eq!(card_picture(0), "sat1");
    assert_eq!(card_picture(5), "sat2");
    assert_eq!(card_picture_path(3), "/public/sat4.png");
    assert_eq!(float_delay_ms(2), 1800);
}

#[test]
fn tanks_stand_apart() {
    assert!(is_tank("oxygen_tank_1"));
    assert!(!is_tank("thruster_1.a"));
    assert!(!is_tank("tan"));
    assert!(sensor_chip_class("hydrogen_tank_1").contains("amber"));
    assert!(sensor_chip_class("thruster_2.a").contains("slate-800"));
}

#[test]
fn newest_measurements() {
    let rs = vec![
        reading("a", 5, true, false),
        reading("b", 9, false, true),
        reading("c", 9, false, true),
        reading("d", 7, true, false),
    ];
    assert_eq!(newest_position(&rs, None), Some(2));
    assert_eq!(newest_position(&rs, Some(Metric::Temperature)), Some(3));
    assert_eq!(newest_position(&rs, Some(Metric::Pressure)), Some(2));
    assert_eq!(newest_position(&vec![], None), None);
    let tanks = vec![reading("t", 3, false, true)];
    assert_eq!(newest_position(&tanks, Some(Metric::Temperature)), None);
}

#[test]
fn health_badges() {
    let b = component_badge(Component::Database, Some("ONLINE"));
    assert_eq!((b.dot, b.label), ("bg-emerald-500", "Online"));
    let b = component_badge(Component::Database, Some("OFFLINE"));
    assert_eq!((b.dot, b.label), ("bg-red-500", "Fehler"));
    let b = component_badge(Component::DataGenerator, None);
    assert_eq!((b.dot, b.label), ("bg-amber-500", "Nicht erreichbar"));
    let b = component_badge(Component::DataGenerator, Some("online"));
    assert_eq!(b.label, "Nicht erreichbar");
}

#[test]
fn card_asks_for_specs_until_answered() {
    let mut c = CardPoll::new();
    assert!(c.wants_specs());
    c.on_specs(false);
    assert!(c.wants_specs());
    c.on_specs(true);
    assert!(!c.wants_specs());
    c.on_specs(false);
    assert!(!c.wants_specs());
}

#[test]
fn orbit_specs_fetched_once_per_satellite() {
    let mut k = SpecsKept::new();
    let iss = "ISS".to_string();
    let hubble = "Hubble".to_string();
    assert!(k.wants_specs(&iss));
    k.on_specs(&iss, false);
    assert!(k.wants_specs(&iss));
    k.on_specs(&iss, true);
    assert!(!k.wants_specs(&iss));
    assert!(k.wants_specs(&hubble));
    k.on_specs(&iss, false);
    assert!(!k.wants_specs(&iss));
    k.on_specs(&hubble, true);
    k.on_specs(&hubble, true);
    assert!(!k.wants_specs(&hubble));
}
