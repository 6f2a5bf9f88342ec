use smart_road::statistics::Statistics;
use smart_road::text::{decimal_text, signed_decimal_text, three_digit_text};
use smart_road::time::TimeSpan;
use smart_road::vehicle::{Direction, Vehicle, Virage};

#[test]
fn fresh_statistics() {
    let s = Statistics::new();
    assert_eq!(s.vehicles_passed(), 0);
    assert_eq!(s.total_vehicles(), 0);
    assert_eq!(s.close_calls(), 0);
    assert_eq!(s.max_velocity(), 0);
    assert_eq!(s.min_velocity(), 0);
    assert_eq!(s.max_time(), TimeSpan { secs: 0, nanos: 0 });
    assert_eq!(s.min_time(), TimeSpan { secs: u64::MAX, nanos: 0 });
    assert_eq!(
        s.summary(),
        vec![
            "Vehicles passed: 0".to_string(),
            "Max velocity: 0".to_string(),
            "Min velocity: 0".to_string(),
            "Max time: 0.000 seconds".to_string(),
            "Min time: 18446744073709551615.000 seconds".to_string(),
            "Close calls: 0".to_string(),
        ]
    );
}

#[test]
fn recording_exits() {
    let mut s = Statistics::new();
    s.record_exit(3, TimeSpan { secs: 1, nanos: 234_000_000 });
    assert_eq!(s.vehicles_passed(), 1);
    assert_eq!(s.max_velocity(), 3);
    assert_eq!(s.max_time(), TimeSpan { secs: 1, nanos: 234_000_000 });
    assert_eq!(s.min_time(), TimeSpan { secs: 1, nanos: 234_000_000 });
    s.record_exit(2, TimeSpan { secs: 0, nanos: 5_000_000 });
    s.record_exit(1, TimeSpan { secs: 1, nanos: 500_000_000 });
    assert_eq!(s.vehicles_passed(), 3);
    assert_eq!(s.max_velocity(), 3);
    assert_eq!(s.min_velocity(), 0);
    assert_eq!(s.max_time(), TimeSpan { secs: 1, nanos: 500_000_000 });
    assert_eq!(s.min_time(), TimeSpan { secs: 0, nanos: 5_000_000 });
    let lines = s.summary();
    assert_eq!(lines[0], "Vehicles passed: 3");
    assert_eq!(lines[1], "Max velocity: 3");
    assert_eq!(lines[3], "Max time: 1.500 seconds");
    assert_eq!(lines[4], "Min time: 0.005 seconds");
}

#[test]
fn entries_exits_and_close_calls() {
    let mut s = Statistics::new();
    let v = Vehicle::new(1, 2, Direction::North, Virage::S);
    s.track_vehicle_entry(&v);
    s.track_vehicle_entry(&v);
    s.increment_close_calls();
    s.track_vehicle_exit(&v);
    assert_eq!(s.total_vehicles(), 2);
    assert_eq!(s.close_calls(), 1);
    assert_eq!(s.vehicles_passed(), 1);
    assert_eq!(s.max_velocity(), 2);
    assert_eq!(s.max_time(), s.min_time());
    assert_eq!(s.summary()[5], "Close calls: 1");
}

#[test]
fn duration_text() {
    assert_eq!(Statistics::format_duration(&TimeSpan { secs: 12, nanos: 7_000_000 }), "12.007 seconds");
    assert_eq!(Statistics::format_duration(&TimeSpan { secs: 0, nanos: 999_999_999 }), "0.999 seconds");
    assert_eq!(Statistics::format_duration(&TimeSpan { secs: 3, nanos: 40_000_000 }), "3.040 seconds");
    assert_eq!(Statistics::format_duration(&TimeSpan { secs: 0, nanos: 0 }), "0.000 seconds");
}

#[test]
fn time_spans() {
    let t = TimeSpan::new(1, 1_500_000_000);
    assert_eq!(t, TimeSpan { secs: 2, nanos: 500_000_000 });
    assert_eq!(t.as_secs(), 2);
    assert_eq!(t.subsec_millis(), 500);
    let u = TimeSpan::new(2, 499_999_999);
    assert!(t.longer_than(&u));
    assert!(u.shorter_than(&t));
    assert!(!t.longer_than(&t));
    assert!(!t.shorter_than(&t));
    assert!(TimeSpan::new(3, 0).longer_than(&t));
}

#[test]
fn decimal_texts() {
    assert_eq!(decimal_text(0), "0");
    assert_eq!(decimal_text(7), "7");
    assert_eq!(decimal_text(10), "10");
    assert_eq!(decimal_text(1234567890123), "1234567890123");
    assert_eq!(decimal_text(u64::MAX), "18446744073709551615");
    assert_eq!(signed_decimal_text(-42), "-42");
    assert_eq!(signed_decimal_text(0), "0");
    assert_eq!(signed_decimal_text(i64::MIN + 1), "-9223372036854775807");
    assert_eq!(three_digit_text(5), "005");
    assert_eq!(three_digit_text(42), "042");
    assert_eq!(three_digit_text(999), "999");
    assert_eq!(three_digit_text(1234), "1234");
}

#[test]
fn counts_over_a_run() {
    let mut s = Statistics::new();
    let v = Vehicle::new(1, 2, Direction::North, Virage::S);
    for _ in 0..5 {
        s.track_vehicle_entry(&v);
    }
    s.increment_close_calls();
    s.record_exit(2, TimeSpan { secs: 4, nanos: 0 });
    s.increment_close_calls();
    s.record_exit(3, TimeSpan { secs: 2, nanos: 10 });
    s.record_exit(-1, TimeSpan { secs: 7, nanos: 3 });
    assert_eq!(s.total_vehicles(), 5);
    assert_eq!(s.vehicles_passed(), 3);
    assert_eq!(s.close_calls(), 2);
    assert_eq!(s.max_velocity(), 3);
    assert_eq!(s.min_velocity(), 0);
    assert_eq!(s.max_time(), TimeSpan { secs: 7, nanos: 3 });
    assert_eq!(s.min_time(), TimeSpan { secs: 2, nanos: 10 });
}
