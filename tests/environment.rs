use picool::environment::{parse_seconds, parse_temperature, restored_power_state, sec_since_epoch, LastOffRecord};
use picool::recovery::RestoredPowerState;

#[test]
fn parses_stored_seconds() {
    assert_eq!(Some(1700000000), parse_seconds(b"1700000000"));
    assert_eq!(Some(42), parse_seconds(b"+42"));
    assert_eq!(Some(0), parse_seconds(b"0"));
    assert_eq!(Some(u64::MAX), parse_seconds(b"18446744073709551615"));
}

#[test]
fn rejects_malformed_seconds() {
    assert_eq!(None, parse_seconds(b""));
    assert_eq!(None, parse_seconds(b"+"));
    assert_eq!(None, parse_seconds(b"-1"));
    assert_eq!(None, parse_seconds(b"12a"));
    assert_eq!(None, parse_seconds(b" 12"));
    assert_eq!(None, parse_seconds(b"12\n"));
    assert_eq!(None, parse_seconds(b"18446744073709551616"));
}

#[test]
fn parse_agrees_with_std() {
    for text in ["0", "+7", "123456789", "", "+", "++1", "1 ", "99999999999999999999", "007"] {
        assert_eq!(text.parse::<u64>().ok(), parse_seconds(text.as_bytes()));
    }
}

#[test]
fn restores_power_state() {
    let text = LastOffRecord::Text(b"1000".to_vec());
    assert_eq!(Some(RestoredPowerState::CurrentlyOn), restored_power_state(true, &text, 2000));
    assert_eq!(Some(RestoredPowerState::OffFor(60_000)), restored_power_state(false, &text, 1060));
    assert_eq!(Some(RestoredPowerState::OffFor(0)), restored_power_state(false, &text, 900));
    assert_eq!(
        Some(RestoredPowerState::OffForUnknownDuration),
        restored_power_state(false, &LastOffRecord::Missing, 2000)
    );
    assert_eq!(None, restored_power_state(false, &LastOffRecord::Unreadable, 2000));
    let bad = LastOffRecord::Text(b"soon".to_vec());
    assert_eq!(None, restored_power_state(false, &bad, 2000));
    let old = LastOffRecord::Text(b"0".to_vec());
    assert_eq!(Some(RestoredPowerState::OffFor(u64::MAX)), restored_power_state(false, &old, u64::MAX));
}

#[test]
fn wall_clock_is_after_epoch() {
    let secs = sec_since_epoch().expect("clock before the epoch");
    assert!(secs > 1_500_000_000);
}

#[test]
fn parses_sensor_readings() {
    assert_eq!(Some(4375), parse_temperature(b"4375\n"));
    assert_eq!(Some(-1250), parse_temperature(b"  -1250\r\n"));
    assert_eq!(Some(7), parse_temperature(b"+7"));
    assert_eq!(Some(i32::MAX), parse_temperature(b"2147483647"));
    assert_eq!(Some(i32::MIN), parse_temperature(b"-2147483648"));
    assert_eq!(None, parse_temperature(b"2147483648"));
    assert_eq!(None, parse_temperature(b"-2147483649"));
    assert_eq!(None, parse_temperature(b" \n"));
    assert_eq!(None, parse_temperature(b"-"));
    assert_eq!(None, parse_temperature(b"12 5"));
    assert_eq!(None, parse_temperature(b"4.5"));
}

#[test]
fn sensor_parse_agrees_with_std() {
    let samples = [
        "0", "-0", "+0", "\t42\n", "  -17  ", "", "--1", "+-1", "99999999999", "000123", "1e3", "\x0b5\x0c",
    ];
    for text in samples {
        assert_eq!(text.trim().parse::<i32>().ok(), parse_temperature(text.as_bytes()), "{:?}", text);
    }
}
