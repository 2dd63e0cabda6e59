use frontend::admin::{anomaly_feedback, reset_feedback};
use frontend::api::{
    admin_anomaly_url, admin_orbit_url, admin_reset_url, admin_status_url, admin_task_url, health_tests_url,
    health_url, logs_url, orbit_colour, satellite_logs_url, satellites_url, scene_options_json, sensors_url,
    specs_url,
};
use frontend::numfmt::{decimal_string, format_time, pad2_string};

#[test]
fn decimal_rendering() {
    assert_eq!(decimal_string(0), "0");
    assert_eq!(decimal_string(7), "7");
    assert_eq!(decimal_string(10), "10");
    assert_eq!(decimal_string(1785920473), "1785920473");
    assert_eq!(decimal_string(u64::MAX), u64::MAX.to_string());
}

#[test]
fn two_digit_padding() {
    assert_eq!(pad2_string(0), "00");
    assert_eq!(pad2_string(9), "09");
    assert_eq!(pad2_string(10), "10");
    assert_eq!(pad2_string(123), "123");
}

#[test]
fn clock_labels() {
    assert_eq!(format_time(9, 5, 30), "09:05:30");
    assert_eq!(format_time(0, 0, 0), "00:00:00");
    assert_eq!(format_time(23, 59, 59), "23:59:59");
}

#[test]
fn clock_label_has_eight_characters() {
    let s = format_time(7, 8, 9);
    assert_eq!(s.len(), 8);
    assert_eq!(&s[2..3], ":");
    assert_eq!(&s[5..6], ":");
}

#[test]
fn endpoint_addresses() {
    assert_eq!(logs_url(15), "/satellites/log?amount=15");
    assert_eq!(satellite_logs_url("ISS", 250), "/satellites/ISS/log?amount=250");
    assert_eq!(satellites_url(), "/satellites");
    assert_eq!(specs_url("Hubble"), "/satellites/Hubble");
    assert_eq!(sensors_url("JWST"), "/satellites/JWST/sensors");
    assert_eq!(admin_status_url(), "/admin/status");
    assert_eq!(admin_orbit_url(), "/admin/orbit");
    assert_eq!(admin_anomaly_url(), "/admin/anomaly");
    assert_eq!(admin_task_url(), "/admin/task");
    assert_eq!(admin_reset_url(), "/admin/reset");
    assert_eq!(health_url(), "/health");
    assert_eq!(health_tests_url(), "/health/tests/run");
}

#[test]
fn orbit_scene_configuration() {
    assert_eq!(
        scene_options_json(),
        r##"{"dataUrl":"/satellites/log?amount=250","pollMs":2500,"timeScale":120.0,"palette":["#38bdf8","#f472b6","#4ade80","#fbbf24","#a78bfa","#fb7185"]}"##
    );
}

#[test]
fn orbit_colours_cycle() {
    assert_eq!(orbit_colour(0), "#38bdf8");
    assert_eq!(orbit_colour(5), "#fb7185");
    assert_eq!(orbit_colour(6), "#38bdf8");
}

#[test]
fn admin_acknowledgements() {
    assert_eq!(
        anomaly_feedback("overheat", "ISS", "thruster_1.a"),
        "Anomalie 'overheat' für ISS/thruster_1.a gesetzt."
    );
    assert_eq!(reset_feedback(), "Alle Einstellungen wurden auf Standardwerte zurückgesetzt.");
}
