use rttmon::clock::ClockTime;

#[test]
fn from_parts_keeps_fields_and_truncates_to_millis() {
    let c = ClockTime::from_parts(13, 7, 42, 123_456_789);
    assert_eq!(c, ClockTime { hour: 13, minute: 7, second: 42, millis: 123 });
}

#[test]
fn from_parts_shows_leap_second_as_sixty() {
    let c = ClockTime::from_parts(23, 59, 59, 1_500_000_000);
    assert_eq!(c, ClockTime { hour: 23, minute: 59, second: 60, millis: 500 });
}

#[test]
fn now_is_in_range() {
    let c = ClockTime::now();
    assert!(c.hour < 24);
    assert!(c.minute < 60);
    assert!(c.second <= 60);
    assert!(c.millis < 1000);
}
