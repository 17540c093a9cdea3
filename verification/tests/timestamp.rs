use cuna::error::InvalidArgument;
use cuna::time::TimeStamp;
use std::time::Duration;

#[test]
fn timestamp_text_is_zero_padded() {
    assert_eq!(TimeStamp::new(0, 0, 0).to_string(), "00:00:00");
    assert_eq!(TimeStamp::new(3, 7, 9).to_string(), "03:07:09");
    assert_eq!(TimeStamp::new(123, 59, 74).to_string(), "123:59:74");
}

#[test]
fn timestamp_round_trip_over_all_seconds_and_frames() {
    for m in [0u32, 1, 9, 10, 99, 100, 71582788] {
        for s in 0..60u32 {
            for f in 0..75u32 {
                if m as u64 * 60 + s as u64 > u32::MAX as u64 {
                    continue;
                }
                let t = TimeStamp::new(m, s, f);
                let text = t.to_string();
                let back = TimeStamp::from_str(&text);
                assert_eq!(back, Ok(t));
                assert_eq!(back.unwrap().to_string(), text);
            }
        }
    }
}

#[test]
fn timestamp_rejects_out_of_range_parts() {
    assert_eq!(TimeStamp::from_str("00:60:00"), Err(InvalidArgument::InvalidTimestamp));
    assert_eq!(TimeStamp::from_str("00:00:75"), Err(InvalidArgument::InvalidTimestamp));
    assert_eq!(TimeStamp::from_str("00:59:74"), Ok(TimeStamp::new(0, 59, 74)));
}

#[test]
fn timestamp_rejects_malformed_text() {
    for text in ["", ":", "00:00", "00:00:", ":00:00", "0:0:0", "00:0:00", "00:00:0", "a0:00:00",
        "00:00:00 ", " 00:00:00", "00:00:00x", "00-00-00", "00:00:000", "00:000:00", "+1:00:00"]
    {
        assert_eq!(TimeStamp::from_str(text), Err(InvalidArgument::InvalidTimestamp), "{}", text);
    }
}

#[test]
fn timestamp_minutes_have_any_number_of_digits() {
    assert_eq!(TimeStamp::from_str("7:01:02"), Ok(TimeStamp::new(7, 1, 2)));
    assert_eq!(TimeStamp::from_str("0007:01:02"), Ok(TimeStamp::new(7, 1, 2)));
    assert_eq!(TimeStamp::from_str("1234:01:02"), Ok(TimeStamp::new(1234, 1, 2)));
}

#[test]
fn timestamp_rejects_minutes_beyond_32_bits_of_seconds() {
    assert_eq!(TimeStamp::from_str("71582788:15:00"), Ok(TimeStamp::new(71582788, 15, 0)));
    assert_eq!(TimeStamp::from_str("71582788:16:00"), Err(InvalidArgument::InvalidTimestamp));
    assert_eq!(TimeStamp::from_str("71582789:00:00"), Err(InvalidArgument::InvalidTimestamp));
    assert_eq!(
        TimeStamp::from_str("99999999999999999999999999:00:00"),
        Err(InvalidArgument::InvalidTimestamp)
    );
    assert_eq!(TimeStamp::from_msf_opt(71582788, 15, 0), Some(TimeStamp::new(71582788, 15, 0)));
    assert_eq!(TimeStamp::from_msf_opt(71582788, 16, 0), None);
    assert_eq!(TimeStamp::from_msf_opt(u32::MAX, 0, 0), None);
}

#[test]
fn timestamp_from_msf_opt_bounds() {
    assert_eq!(TimeStamp::from_msf_opt(0, 59, 74), Some(TimeStamp::new(0, 59, 74)));
    assert_eq!(TimeStamp::from_msf_opt(0, 60, 0), None);
    assert_eq!(TimeStamp::from_msf_opt(0, 0, 75), None);
}

#[test]
fn timestamp_from_msf_carries_frames() {
    let t = TimeStamp::from_msf(1, 2, 75 * 3 + 4);
    assert_eq!(t.as_seconds(), 65);
    assert_eq!(t.frames(), 4);
    assert_eq!(t, TimeStamp::new(1, 5, 4));
    let t = TimeStamp::from_msf(0, 125, 0);
    assert_eq!(t.minutes(), 2);
    assert_eq!(t.seconds(), 5);
}

#[test]
fn timestamp_projections() {
    let t = TimeStamp::new(2, 3, 4);
    assert_eq!(t.as_seconds(), 123);
    assert_eq!(t.as_frames(), 123 * 75 + 4);
    assert_eq!(t.minutes(), 2);
    assert_eq!(t.seconds(), 3);
    assert_eq!(t.frames(), 4);
}

#[test]
fn timestamp_default_is_zero() {
    assert_eq!(TimeStamp::default(), TimeStamp::new(0, 0, 0));
}

#[test]
fn timestamp_setters_keep_the_other_parts() {
    let mut t = TimeStamp::new(5, 6, 7);
    t.set_minutes(0);
    assert_eq!((t.minutes(), t.seconds(), t.frames()), (0, 6, 7));
    t.set_seconds(59);
    assert_eq!((t.minutes(), t.seconds(), t.frames()), (0, 59, 7));
    t.set_frames(74);
    assert_eq!((t.minutes(), t.seconds(), t.frames()), (0, 59, 74));
}

#[test]
fn timestamp_to_duration_truncates_milliseconds() {
    assert_eq!(TimeStamp::new(0, 0, 1).as_secs_millis(), (0, 13));
    assert_eq!(TimeStamp::new(0, 0, 74).as_secs_millis(), (0, 986));
    assert_eq!(TimeStamp::new(2, 1, 30).as_secs_millis(), (121, 400));
    assert_eq!(Duration::from(TimeStamp::new(2, 1, 30)), Duration::from_millis(121_400));
    assert_eq!(Duration::from(TimeStamp::new(0, 0, 1)), Duration::from_millis(13));
}

#[test]
fn timestamp_from_duration_truncates_frames() {
    assert_eq!(TimeStamp::from_secs_millis(0, 399), TimeStamp::new(0, 0, 29));
    assert_eq!(TimeStamp::from_secs_millis(0, 400), TimeStamp::new(0, 0, 30));
    assert_eq!(TimeStamp::from_secs_millis(0, 13), TimeStamp::new(0, 0, 0));
    assert_eq!(TimeStamp::from_secs_millis(0, 999), TimeStamp::new(0, 0, 74));
    assert_eq!(TimeStamp::from_secs_millis(61, 0), TimeStamp::new(1, 1, 0));
    assert_eq!(TimeStamp::from(Duration::new(125, 999_999_999)), TimeStamp::new(2, 5, 74));
    assert_eq!(TimeStamp::from(Duration::from_micros(13_999)), TimeStamp::new(0, 0, 0));
    assert_eq!(TimeStamp::from(Duration::from_secs(1 << 32)), TimeStamp::new(0, 0, 0));
    assert_eq!(TimeStamp::from(Duration::from_secs((1 << 32) + 61)), TimeStamp::new(1, 1, 0));
}

#[test]
fn timestamp_parses_through_from_str_trait() {
    assert_eq!("01:02:03".parse::<TimeStamp>(), Ok(TimeStamp::new(1, 2, 3)));
    assert_eq!("01:02:99".parse::<TimeStamp>(), Err(InvalidArgument::InvalidTimestamp));
}
