use rttmon::clock::ClockTime;
use rttmon::render::{banner_padding, endpoint_address, fill, format_record, format_stamp, format_time};

fn t(hour: u32, minute: u32, second: u32, millis: u32) -> ClockTime {
    ClockTime { hour, minute, second, millis }
}

#[test]
fn time_is_zero_padded() {
    assert_eq!(format_time(&t(9, 5, 3, 7)), b"09:05:03.007".to_vec());
    assert_eq!(format_time(&t(23, 59, 60, 999)), b"23:59:60.999".to_vec());
    assert_eq!(format_time(&t(0, 0, 0, 0)), b"00:00:00.000".to_vec());
}

#[test]
fn stamp_is_bracketed() {
    assert_eq!(format_stamp(&t(12, 34, 56, 789)), b"[12:34:56.789]".to_vec());
}

#[test]
fn record_is_stamp_space_line() {
    assert_eq!(
        format_record(&t(12, 34, 56, 789), b"hello"),
        b"[12:34:56.789] hello".to_vec()
    );
    assert_eq!(format_record(&t(1, 2, 3, 40), b""), b"[01:02:03.040] ".to_vec());
}

#[test]
fn address_joins_host_and_port() {
    assert_eq!(endpoint_address("localhost", 9090), b"localhost:9090".to_vec());
    assert_eq!(endpoint_address("10.0.0.1", 0), b"10.0.0.1:0".to_vec());
    assert_eq!(endpoint_address("h", 65535), b"h:65535".to_vec());
}

#[test]
fn banner_padding_centres_label() {
    assert_eq!(banner_padding(" Connection Established ".len()), (28, 28));
    assert_eq!(banner_padding(" Connection Closed ".len()), (30, 31));
    assert_eq!(banner_padding(80), (0, 0));
    assert_eq!(banner_padding(0), (40, 40));
}

#[test]
fn fill_repeats_box_drawing_line() {
    assert_eq!(fill(0), Vec::<u8>::new());
    assert_eq!(String::from_utf8(fill(3)).unwrap(), "───");
}
