use sugar_diff::{Meassurement, MeassurementLog, Ratio};

fn entry(y: &str, t: &str) -> Meassurement {
    Meassurement::new(y.to_string(), t.to_string()).unwrap()
}

fn log_of(entries: &[(&str, &str)]) -> MeassurementLog {
    let mut log = MeassurementLog::new();
    for (y, t) in entries {
        log.insert(entry(y, t));
    }
    log
}

fn values(log: &MeassurementLog) -> Vec<i16> {
    log.entries().iter().map(|m| m.y()).collect()
}

fn is_sorted(log: &MeassurementLog) -> bool {
    log.entries().windows(2).all(|w| w[0].timestamp() <= w[1].timestamp())
}

#[test]
fn a_new_log_is_empty() {
    let log = MeassurementLog::new();
    assert_eq!(log.len(), 0);
    assert!(log.entries().is_empty());
}

#[test]
fn entries_inserted_in_order_stay_in_order() {
    let log = log_of(&[("100", "08:00"), ("120", "08:10")]);
    assert_eq!(log.len(), 2);
    assert_eq!(log.entries(), &[entry("100", "08:00"), entry("120", "08:10")]);
    let rate = log.entries()[1].diff(&log.entries()[0]);
    assert_eq!(rate, Ratio { num: 20, den: 10 });
    assert_eq!(rate.num as f32 / rate.den as f32, 2.0);
}

#[test]
fn an_earlier_entry_goes_to_the_front() {
    let mut log = log_of(&[("90", "08:00"), ("70", "08:10")]);
    log.insert(entry("50", "07:00"));
    assert_eq!(log.entries()[0], entry("50", "07:00"));
    assert_eq!(values(&log), vec![50, 90, 70]);
    assert!(is_sorted(&log));
}

#[test]
fn an_entry_between_two_goes_between_them() {
    let mut log = log_of(&[("1", "08:00"), ("3", "10:00")]);
    log.insert(entry("2", "09:00"));
    assert_eq!(values(&log), vec![1, 2, 3]);
}

#[test]
fn a_later_entry_goes_to_the_end() {
    let mut log = log_of(&[("1", "08:00"), ("2", "09:00")]);
    log.insert(entry("3", "09:01"));
    assert_eq!(values(&log), vec![1, 2, 3]);
}

#[test]
fn any_order_of_submission_gives_a_sorted_log() {
    let times = ["12:00", "08:00", "23:59", "0:00", "08:00", "15:30", "12:00", "7:59", "12:00"];
    let mut log = MeassurementLog::new();
    for (i, t) in times.iter().enumerate() {
        log.insert(entry(&format!("{}", i), t));
        assert_eq!(log.len(), i + 1);
        assert!(is_sorted(&log));
    }
    let stamps: Vec<i16> = log.entries().iter().map(|m| m.timestamp()).collect();
    assert_eq!(stamps, vec![0, 479, 480, 480, 720, 720, 720, 930, 1439]);
}

#[test]
fn an_entry_goes_before_those_of_its_own_timestamp() {
    let mut log = log_of(&[("1", "08:00"), ("2", "09:00"), ("3", "10:00")]);
    log.insert(entry("4", "09:00"));
    assert_eq!(values(&log), vec![1, 4, 2, 3]);
    log.insert(entry("5", "09:00"));
    assert_eq!(values(&log), vec![1, 5, 4, 2, 3]);
    log.insert(entry("6", "08:00"));
    assert_eq!(values(&log), vec![6, 1, 5, 4, 2, 3]);
    log.insert(entry("7", "10:00"));
    assert_eq!(values(&log), vec![6, 1, 5, 4, 2, 7, 3]);
    assert!(is_sorted(&log));
}

#[test]
fn window_gives_the_last_entries() {
    let log = log_of(&[
        ("1", "01:00"),
        ("2", "02:00"),
        ("3", "03:00"),
        ("4", "04:00"),
        ("5", "05:00"),
        ("6", "06:00"),
        ("7", "07:00"),
        ("8", "08:00"),
    ]);
    let last: Vec<i16> = log.window(6).iter().map(|m| m.y()).collect();
    assert_eq!(last, vec![3, 4, 5, 6, 7, 8]);
    assert_eq!(log.window(1), &[entry("8", "08:00")]);
    assert!(log.window(0).is_empty());
    assert_eq!(log.window(8), log.entries());
    assert_eq!(log.window(9), log.entries());
    assert_eq!(log.window(usize::MAX), log.entries());
    assert_eq!(log.len(), 8);
}

#[test]
fn window_of_an_empty_log_is_empty() {
    let log = MeassurementLog::new();
    assert!(log.window(6).is_empty());
    assert!(log.window(0).is_empty());
}

#[test]
fn rows_carry_text_and_rate() {
    let log = log_of(&[("100", "08:00"), ("120", "08:10"), ("90", "08:40")]);
    let rows = log.rows(6);
    assert_eq!(rows.len(), 3);
    assert_eq!(rows[0].text, "[08:00] 100");
    assert_eq!(rows[0].rate, None);
    assert_eq!(rows[1].text, "[08:10] 120");
    assert_eq!(rows[1].rate, Some(Ratio { num: 20, den: 10 }));
    assert_eq!(rows[2].text, "[08:40] 90");
    assert_eq!(rows[2].rate, Some(Ratio { num: -30, den: 30 }));
}

#[test]
fn the_first_row_of_a_window_has_its_rate_against_the_entry_before() {
    let log = log_of(&[("100", "08:00"), ("120", "08:10"), ("90", "08:40")]);
    let rows = log.rows(2);
    assert_eq!(rows.len(), 2);
    assert_eq!(rows[0].text, "[08:10] 120");
    assert_eq!(rows[0].rate, Some(Ratio { num: 20, den: 10 }));
    assert_eq!(rows[1].text, "[08:40] 90");
    assert_eq!(rows[1].rate, Some(Ratio { num: -30, den: 30 }));
    assert!(log.rows(0).is_empty());
    assert!(MeassurementLog::new().rows(6).is_empty());
}

#[test]
fn rows_at_one_timestamp_have_an_undefined_rate() {
    let log = log_of(&[("100", "08:00"), ("120", "08:00")]);
    let rows = log.rows(6);
    assert_eq!(rows[0].text, "[08:00] 120");
    assert_eq!(rows[1].text, "[08:00] 100");
    assert_eq!(rows[1].rate, Some(Ratio { num: -20, den: 0 }));
}

#[test]
fn chart_points_of_an_empty_log_are_none() {
    assert!(MeassurementLog::new().chart_points().is_empty());
}

#[test]
fn chart_points_follow_the_log() {
    let log = log_of(&[("120", "08:10"), ("100", "08:00"), ("-3", "23:59")]);
    assert_eq!(log.chart_points(), vec![(480, 100), (490, 120), (1439, -3)]);
    let as_floats: Vec<(f64, f64)> =
        log.chart_points().iter().map(|p| (p.0 as f64, p.1 as f64)).collect();
    assert_eq!(as_floats, vec![(480.0, 100.0), (490.0, 120.0), (1439.0, -3.0)]);
}

#[test]
fn min_timestamp_is_the_earliest_or_zero() {
    assert_eq!(MeassurementLog::new().min_timestamp(), 0);
    let log = log_of(&[("120", "08:10"), ("100", "08:00"), ("-3", "23:59")]);
    assert_eq!(log.min_timestamp(), 480);
    assert_eq!(log.min_timestamp() as f64 * 0.9, 432.0);
}
