use frontend::chart::{
    axis_fits, axis_tick_times, chart_body, chart_dom_id, chart_log_amount, chart_time_axis, chart_title, group_series,
    legend_entry, series_colour, series_strokes, window_select_id, ChartBody, SensorSet, Shade, Stroke,
};
use frontend::reading::{Metric, Reading};

fn r(sensor: &str, ts: u64, temp: bool, pres: bool) -> Reading {
    Reading {
        satellite: "ISS".to_string(),
        sensor: sensor.to_string(),
        timestamp: ts,
        has_temperature: temp,
        has_pressure: pres,
    }
}

#[test]
fn series_are_grouped_by_sensor_in_name_order() {
    let rs = vec![
        r("thruster_1.b", 5, true, true),
        r("oxygen_tank_1", 3, false, true),
        r("thruster_1.b", 2, true, true),
        r("thruster_1.a", 4, true, true),
        r("thruster_1.b", 2, true, true),
    ];
    let series = group_series(&rs);
    let names: Vec<&str> = series.iter().map(|s| s.sensor.as_str()).collect();
    assert_eq!(names, vec!["oxygen_tank_1", "thruster_1.a", "thruster_1.b"]);
    assert_eq!(series[0].order, vec![1]);
    assert_eq!(series[1].order, vec![3]);
    // oldest first, equally old ones in the order of the answer
    assert_eq!(series[2].order, vec![2, 4, 0]);
}

#[test]
fn every_measurement_lands_in_exactly_one_series() {
    let rs = vec![r("b", 1, true, true), r("a", 2, true, true), r("b", 0, true, true), r("c", 9, true, true)];
    let series = group_series(&rs);
    for i in 0..rs.len() {
        let hits = series.iter().filter(|s| s.order.contains(&i)).count();
        assert_eq!(hits, 1);
    }
}

#[test]
fn no_measurements_no_series() {
    assert!(group_series(&vec![]).is_empty());
}

#[test]
fn names_order_by_code_point() {
    let rs = vec![r("b", 1, true, true), r("B", 1, true, true), r("ab", 1, true, true), r("a", 1, true, true)];
    let names: Vec<String> = group_series(&rs).into_iter().map(|s| s.sensor).collect();
    assert_eq!(names, vec!["B", "a", "ab", "b"]);
}

#[test]
fn gaps_break_the_line() {
    let rs = vec![
        r("a", 1, true, false),
        r("a", 2, true, false),
        r("a", 3, false, true),
        r("a", 4, true, false),
        r("a", 5, true, false),
    ];
    let order = vec![0, 1, 2, 3, 4];
    assert_eq!(
        series_strokes(&rs, &order, Metric::Temperature),
        vec![Stroke::MoveTo, Stroke::LineTo, Stroke::Gap, Stroke::MoveTo, Stroke::LineTo]
    );
    assert_eq!(
        series_strokes(&rs, &order, Metric::Pressure),
        vec![Stroke::Gap, Stroke::Gap, Stroke::MoveTo, Stroke::Gap, Stroke::Gap]
    );
}

#[test]
fn time_axis_spans_drawn_measurements() {
    let rs = vec![r("a", 100, true, false), r("b", 90, true, false), r("c", 80, false, true), r("a", 130, true, false)];
    let off = SensorSet::new();
    assert_eq!(chart_time_axis(&rs, Metric::Temperature, &off), (90, 130));
    assert_eq!(chart_time_axis(&rs, Metric::Pressure, &off), (80, 81));
}

#[test]
fn time_axis_ignores_switched_off_sensors() {
    let rs = vec![r("a", 100, true, false), r("b", 90, true, false)];
    let mut off = SensorSet::new();
    off.toggle("b");
    assert_eq!(chart_time_axis(&rs, Metric::Temperature, &off), (100, 101));
}

#[test]
fn time_axis_falls_back_without_drawn_values() {
    let rs = vec![r("a", 100, false, false), r("b", 50, false, false)];
    let off = SensorSet::new();
    assert_eq!(chart_time_axis(&rs, Metric::Temperature, &off), (100, 110));
    assert_eq!(chart_time_axis(&vec![], Metric::Temperature, &off), (0, 10));
}

#[test]
fn axis_ticks_divide_the_range() {
    assert_eq!(axis_tick_times(100, 140, false), vec![100, 110, 120, 130, 140]);
    assert_eq!(axis_tick_times(0, 17, false), vec![0, 4, 8, 12, 16]);
    assert_eq!(axis_tick_times(0, 16, true), vec![0, 2, 4, 6, 8, 10, 12, 14, 16]);
    assert_eq!(axis_tick_times(5, 8, false), vec![5]);
}

#[test]
fn toggling_twice_restores_the_legend() {
    let mut off = SensorSet::new();
    assert!(!off.contains("a"));
    off.toggle("a");
    assert!(off.contains("a"));
    off.toggle("b");
    off.toggle("a");
    assert!(!off.contains("a"));
    assert!(off.contains("b"));
}

#[test]
fn legend_entries() {
    let rs = vec![r("tank", 1, false, true), r("thr", 1, true, true)];
    let series = group_series(&rs);
    let mut off = SensorSet::new();
    off.toggle("thr");
    let tank = legend_entry(&rs, &series[0], 0, Metric::Temperature, &off);
    assert!(tank.active && !tank.has_data && !tank.drawn);
    assert_eq!(tank.shade, Shade::Faint);
    assert_eq!(tank.shade.class(), "opacity-25");
    assert_eq!(tank.colour, "#9ca3af");
    let thr = legend_entry(&rs, &series[1], 1, Metric::Temperature, &off);
    assert!(!thr.active && thr.has_data && !thr.drawn);
    assert_eq!(thr.shade, Shade::Dimmed);
    assert_eq!(thr.shade.class(), "opacity-40");
    let tank_p = legend_entry(&rs, &series[0], 0, Metric::Pressure, &off);
    assert!(tank_p.drawn);
    assert_eq!(tank_p.shade.class(), "opacity-100");
    assert_eq!(tank_p.colour, "#2563eb");
}

#[test]
fn series_colours_cycle() {
    assert_eq!(series_colour(0), "#2563eb");
    assert_eq!(series_colour(1), "#ef4444");
    assert_eq!(series_colour(5), "#ec4899");
    assert_eq!(series_colour(7), "#ef4444");
}

#[test]
fn chart_body_states() {
    assert_eq!(chart_body(None, 5), ChartBody::SensorsLoading);
    assert_eq!(chart_body(Some(0), 5), ChartBody::NoSensors);
    assert_eq!(chart_body(Some(3), 0), ChartBody::AwaitingData);
    assert_eq!(chart_body(Some(3), 4), ChartBody::Plot);
}

#[test]
fn chart_request_scales_with_sensors() {
    assert_eq!(chart_log_amount(25, 5), 125);
    assert_eq!(chart_log_amount(10, 0), 0);
}

#[test]
fn chart_texts() {
    assert_eq!(chart_dom_id(3), "chart-3");
    assert_eq!(window_select_id(12), "viewport-12");
    assert_eq!(chart_title("ISS"), "Satellit: ISS");
}

#[test]
fn metric_names() {
    assert_eq!(Metric::from_name("temperature"), Metric::Temperature);
    assert_eq!(Metric::from_name("pressure"), Metric::Pressure);
    assert_eq!(Metric::from_name("anything"), Metric::Pressure);
    assert_eq!(Metric::Temperature.unit(), "K");
    assert_eq!(Metric::Pressure.unit(), "Bar");
}

#[test]
fn axis_fit_near_the_end_of_time() {
    let off = SensorSet::new();
    let edge = vec![r("a", u64::MAX, true, false)];
    assert!(!axis_fits(&edge, Metric::Temperature, &off));
    let late = vec![r("a", u64::MAX - 5, false, false)];
    assert!(!axis_fits(&late, Metric::Temperature, &off));
    let wide = vec![r("a", u64::MAX - 5, true, false), r("a", u64::MAX, true, false)];
    assert!(axis_fits(&wide, Metric::Temperature, &off));
    assert_eq!(chart_time_axis(&wide, Metric::Temperature, &off), (u64::MAX - 5, u64::MAX));
    assert!(axis_fits(&vec![], Metric::Temperature, &off));
}
