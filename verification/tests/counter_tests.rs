use frontend::counter::ReceivedCounter;
use frontend::reading::Reading;

fn reading(sat: &str, sensor: &str, ts: u64) -> Reading {
    Reading {
        satellite: sat.to_string(),
        sensor: sensor.to_string(),
        timestamp: ts,
        has_temperature: true,
        has_pressure: false,
    }
}

#[test]
fn first_poll_counts_every_measurement() {
    let mut c = ReceivedCounter::new();
    let batch = vec![reading("ISS", "a", 10), reading("ISS", "a", 11), reading("ISS", "b", 10)];
    c.record_batch(&batch);
    assert_eq!(c.total(), 3);
    assert_eq!(c.newest_of(&"ISS".to_string(), &"a".to_string()), Some(11));
    assert_eq!(c.newest_of(&"ISS".to_string(), &"b".to_string()), Some(10));
}

#[test]
fn repeated_poll_adds_nothing() {
    let mut c = ReceivedCounter::new();
    let batch = vec![reading("ISS", "a", 10), reading("JWST", "a", 12)];
    c.record_batch(&batch);
    c.record_batch(&batch);
    assert_eq!(c.total(), 2);
}

#[test]
fn overlapping_poll_counts_only_newer() {
    let mut c = ReceivedCounter::new();
    c.record_batch(&vec![reading("ISS", "a", 10), reading("ISS", "a", 11)]);
    c.record_batch(&vec![reading("ISS", "a", 11), reading("ISS", "a", 12), reading("ISS", "a", 13)]);
    assert_eq!(c.total(), 4);
    assert_eq!(c.newest_of(&"ISS".to_string(), &"a".to_string()), Some(13));
}

#[test]
fn late_older_measurement_is_not_counted() {
    let mut c = ReceivedCounter::new();
    c.record_batch(&vec![reading("ISS", "a", 20)]);
    c.record_batch(&vec![reading("ISS", "a", 15)]);
    assert_eq!(c.total(), 1);
    assert_eq!(c.newest_of(&"ISS".to_string(), &"a".to_string()), Some(20));
}

#[test]
fn same_sensor_name_on_two_satellites_counts_apart() {
    let mut c = ReceivedCounter::new();
    c.record_batch(&vec![reading("ISS", "a", 20)]);
    c.record_batch(&vec![reading("Hubble", "a", 5)]);
    assert_eq!(c.total(), 2);
    assert_eq!(c.newest_of(&"Hubble".to_string(), &"a".to_string()), Some(5));
    assert_eq!(c.newest_of(&"Hubble".to_string(), &"b".to_string()), None);
}

#[test]
fn duplicates_within_one_poll_both_count() {
    let mut c = ReceivedCounter::new();
    c.record_batch(&vec![reading("ISS", "a", 5)]);
    c.record_batch(&vec![reading("ISS", "a", 7), reading("ISS", "a", 7)]);
    assert_eq!(c.total(), 3);
}

#[test]
fn empty_poll_changes_nothing() {
    let mut c = ReceivedCounter::new();
    c.record_batch(&vec![]);
    assert_eq!(c.total(), 0);
    assert_eq!(c.newest_of(&"ISS".to_string(), &"a".to_string()), None);
}
