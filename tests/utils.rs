use robustmq::utils::duration::{RobustMQDuration, SEC_IN_MICRO};
use robustmq::utils::expiry::RobustMQExpiry;
use robustmq::utils::time_util::{get_current_millisecond_timestamp, millis_of_reading, RobustMQTimestamp};
use std::time::Duration;

#[test]
fn test_new() {
    let duration = Duration::new(60, 0);
    let robustmq_duration = RobustMQDuration::new(duration);
    assert_eq!(robustmq_duration.as_secs(), 60);
}

#[test]
fn test_as_human_time_string() {
    let duration = Duration::new(3661, 0);
    let robustmq_duration = RobustMQDuration::new(duration);
    assert_eq!(robustmq_duration.as_human_time_string(), "1h 1m 1s");
}

#[test]
fn test_long_duration_as_human_time_string() {
    let duration = Duration::new(36611233, 0);
    let robustmq_duration = RobustMQDuration::new(duration);
    assert_eq!(
        robustmq_duration.as_human_time_string(),
        "1year 1month 28days 1h 13m 37s"
    );
}

#[test]
fn test_from_str() {
    let robustmq_duration: RobustMQDuration = "1h 1m 1s".parse().unwrap();
    assert_eq!(robustmq_duration.as_secs(), 3661);
}

#[test]
fn test_display() {
    let duration = Duration::new(3661, 0);
    let robustmq_duration = RobustMQDuration::new(duration);
    let duration_string = robustmq_duration.to_string();
    assert_eq!(duration_string, "1h 1m 1s");
}

#[test]
fn test_invalid_duration() {
    let result: Result<RobustMQDuration, _> = "1 hour and 30 minutes".parse();
    assert!(result.is_err());
}

#[test]
fn test_zero_seconds_duration() {
    let robustmq_duration: RobustMQDuration = "0s".parse().unwrap();
    assert_eq!(robustmq_duration.as_secs(), 0);
}

#[test]
fn test_zero_duration() {
    let robustmq_duration: RobustMQDuration = "0".parse().unwrap();
    assert_eq!(robustmq_duration.as_secs(), 0);
}

#[test]
fn test_unlimited() {
    let robustmq_duration: RobustMQDuration = "unlimited".parse().unwrap();
    assert_eq!(robustmq_duration.as_secs(), 0);
}

#[test]
fn test_disabled() {
    let robustmq_duration: RobustMQDuration = "disabled".parse().unwrap();
    assert_eq!(robustmq_duration.as_secs(), 0);
}

#[test]
fn test_add_duration() {
    let robustmq_duration1: RobustMQDuration = "6s".parse().unwrap();
    let robustmq_duration2: RobustMQDuration = "1m".parse().unwrap();
    let result: RobustMQDuration = robustmq_duration1 + robustmq_duration2;
    assert_eq!(result.as_secs(), 66);
}

#[test]
fn duration_keywords_ignore_case() {
    let d: RobustMQDuration = "NONE".parse().unwrap();
    assert_eq!(d.total_nanos(), 0);
    let d: RobustMQDuration = "2MS".parse().unwrap();
    assert_eq!(d.total_nanos(), 2_000_000);
}

#[test]
fn duration_with_too_many_digits_is_refused() {
    let result: Result<RobustMQDuration, _> = "1234567890123456ns".parse();
    assert!(result.is_err());
}

#[test]
fn long_nanosecond_duration_is_read() {
    let d: RobustMQDuration = "100000000000ns".parse().unwrap();
    assert_eq!(d.as_secs(), 100);
    let d: RobustMQDuration = "999999999999999ns".parse().unwrap();
    assert_eq!(d.total_nanos(), 999_999_999_999_999);
}

#[test]
fn clock_readings() {
    assert_eq!(millis_of_reading(Some((1738405752, 756068000))), 1738405752756);
    assert_eq!(millis_of_reading(None), 0);
    assert_eq!(RobustMQTimestamp::from_reading(Some((2, 5000))).as_micros(), 2_000_005);
    assert_eq!(RobustMQTimestamp::from_reading(None), RobustMQTimestamp::zero());
}

#[test]
fn duration_micros_and_abs_diff() {
    let a = RobustMQDuration::from(1_500_000u64);
    let b = RobustMQDuration::new_from_secs(4);
    assert_eq!(a.as_micros(), 1_500_000);
    assert_eq!(a.as_secs(), 1);
    assert_eq!(b.abs_diff(a).as_micros(), 2_500_000);
    assert_eq!(a.abs_diff(b).as_micros(), 2_500_000);
    assert!(RobustMQDuration::from(999_999u64).is_zero());
    assert!(!RobustMQDuration::from(1_000_000u64).is_zero());
    assert_eq!(u64::from(b), 4_000_000);
    assert_eq!(RobustMQDuration::from(None).total_nanos(), 0);
    assert_eq!(RobustMQDuration::default().total_nanos(), 0);
}

#[test]
fn duration_round_trips_through_std() {
    let d = RobustMQDuration::new(Duration::new(7, 250));
    assert_eq!(d.get_duration(), Duration::new(7, 250));
    assert_eq!(d.total_nanos(), 7_000_000_250);
}

#[test]
fn zero_duration_is_written_0s() {
    assert_eq!(RobustMQDuration::zero().to_string(), "0s");
}

#[test]
fn should_parse_expiry() {
    assert_eq!(
        "none".parse::<RobustMQExpiry>().unwrap(),
        RobustMQExpiry::NeverExpire
    );
    assert_eq!(
        "15days".parse::<RobustMQExpiry>().unwrap(),
        RobustMQExpiry::ExpireDuration(RobustMQDuration::from(SEC_IN_MICRO * 60 * 60 * 24 * 15))
    );
    assert_eq!(
        "2min".parse::<RobustMQExpiry>().unwrap(),
        RobustMQExpiry::ExpireDuration(RobustMQDuration::from(SEC_IN_MICRO * 60 * 2))
    );
    assert_eq!(
        "1ms".parse::<RobustMQExpiry>().unwrap(),
        RobustMQExpiry::ExpireDuration(RobustMQDuration::from(1000))
    );
    assert_eq!(
        "1s".parse::<RobustMQExpiry>().unwrap(),
        RobustMQExpiry::ExpireDuration(RobustMQDuration::new_from_secs(1))
    );
    assert_eq!(
        "15days 2min 2s".parse::<RobustMQExpiry>().unwrap(),
        RobustMQExpiry::ExpireDuration(RobustMQDuration::from(
            SEC_IN_MICRO * (60 * 60 * 24 * 15 + 60 * 2 + 2)
        ))
    );
}

#[test]
fn should_fail_parsing_expiry() {
    let x = "15se".parse::<RobustMQExpiry>();
    assert!(x.is_err());
    assert_eq!(
        x.unwrap_err(),
        "unknown time unit \"se\", supported units: ns, us, ms, sec, min, hours, days, weeks, months, years (and few variations)"
    );
}

#[test]
fn expiry_keywords_and_limit() {
    assert_eq!(
        "Server_default".parse::<RobustMQExpiry>().unwrap(),
        RobustMQExpiry::ServerDefault
    );
    assert_eq!(
        "Unlimited".parse::<RobustMQExpiry>().unwrap(),
        RobustMQExpiry::NeverExpire
    );
    let too_big = "4294967296s".parse::<RobustMQExpiry>();
    assert_eq!(
        too_big.unwrap_err(),
        format!(
            "Value too big for expiry time, maximum value is {}",
            RobustMQDuration::new_from_secs(4294967295).to_string()
        )
    );
    assert!("4294967295s".parse::<RobustMQExpiry>().is_ok());
}

#[test]
fn should_sum_expiry() {
    assert_eq!(
        RobustMQExpiry::NeverExpire + RobustMQExpiry::NeverExpire,
        RobustMQExpiry::NeverExpire
    );
    assert_eq!(
        RobustMQExpiry::NeverExpire + RobustMQExpiry::ExpireDuration(RobustMQDuration::from(3)),
        RobustMQExpiry::ExpireDuration(RobustMQDuration::from(3))
    );
    assert_eq!(
        RobustMQExpiry::ExpireDuration(RobustMQDuration::from(5)) + RobustMQExpiry::NeverExpire,
        RobustMQExpiry::ExpireDuration(RobustMQDuration::from(5))
    );
    assert_eq!(
        RobustMQExpiry::ExpireDuration(RobustMQDuration::from(5))
            + RobustMQExpiry::ExpireDuration(RobustMQDuration::from(3)),
        RobustMQExpiry::ExpireDuration(RobustMQDuration::from(8))
    );
}

#[test]
fn server_default_absorbs_durations() {
    assert_eq!(
        RobustMQExpiry::ServerDefault + RobustMQExpiry::ExpireDuration(RobustMQDuration::from(3)),
        RobustMQExpiry::ServerDefault
    );
    assert_eq!(
        RobustMQExpiry::ExpireDuration(RobustMQDuration::from(3)) + RobustMQExpiry::ServerDefault,
        RobustMQExpiry::ServerDefault
    );
}

#[test]
fn should_sum_expiry_from_vec() {
    assert_eq!(
        RobustMQExpiry::from(vec![RobustMQExpiry::NeverExpire]),
        RobustMQExpiry::NeverExpire
    );
    let x = vec![
        RobustMQExpiry::NeverExpire,
        RobustMQExpiry::ExpireDuration(RobustMQDuration::from(333)),
        RobustMQExpiry::NeverExpire,
        RobustMQExpiry::ExpireDuration(RobustMQDuration::from(123)),
    ];
    assert_eq!(
        RobustMQExpiry::from(x),
        RobustMQExpiry::ExpireDuration(RobustMQDuration::from(456))
    );
}

#[test]
fn should_check_display_expiry() {
    assert_eq!(RobustMQExpiry::NeverExpire.to_string(), "none");
    assert_eq!(
        RobustMQExpiry::ExpireDuration(RobustMQDuration::from(333333000000)).to_string(),
        "3days 20h 35m 33s"
    );
}

#[test]
fn should_calculate_none_from_server_default() {
    let expiry = RobustMQExpiry::ServerDefault;
    let result: Option<u64> = From::from(&expiry);
    assert_eq!(result, None);
}

#[test]
fn should_calculate_u64_max_from_never_expiry() {
    let expiry = RobustMQExpiry::NeverExpire;
    let result: Option<u64> = From::from(&expiry);
    assert_eq!(result, Some(u64::MAX));
}

#[test]
fn should_calculate_some_seconds_from_message_expire() {
    let duration = RobustMQDuration::new(Duration::new(42, 0));
    let expiry = RobustMQExpiry::ExpireDuration(duration);
    let result: Option<u64> = From::from(&expiry);
    assert_eq!(result, Some(42000000));
}

#[test]
fn should_create_new_expiry_from_vec() {
    let some_values = vec![
        RobustMQExpiry::NeverExpire,
        RobustMQExpiry::ExpireDuration(RobustMQDuration::from(3)),
        RobustMQExpiry::ExpireDuration(RobustMQDuration::from(2)),
        RobustMQExpiry::ExpireDuration(RobustMQDuration::from(1)),
    ];
    assert_eq!(
        RobustMQExpiry::new(Some(some_values)),
        Some(RobustMQExpiry::ExpireDuration(RobustMQDuration::from(6)))
    );
    assert_eq!(RobustMQExpiry::new(None), None);
    let none_values = vec![RobustMQExpiry::ServerDefault; 10];

    assert_eq!(
        RobustMQExpiry::new(Some(none_values)),
        Some(RobustMQExpiry::ServerDefault)
    );
}

#[test]
fn expiry_from_micros() {
    assert_eq!(RobustMQExpiry::from(u64::MAX), RobustMQExpiry::NeverExpire);
    assert_eq!(RobustMQExpiry::from(0u64), RobustMQExpiry::ServerDefault);
    assert_eq!(
        RobustMQExpiry::from(7u64),
        RobustMQExpiry::ExpireDuration(RobustMQDuration::from(7))
    );
    assert_eq!(RobustMQExpiry::from(None::<u64>), RobustMQExpiry::NeverExpire);
    assert_eq!(u64::from(RobustMQExpiry::ServerDefault), 0);
    assert_eq!(u64::from(RobustMQExpiry::NeverExpire), u64::MAX);
    assert_eq!(RobustMQExpiry::default(), RobustMQExpiry::ServerDefault);
}

#[test]
fn test_timestamp_get() {
    let timestamp = RobustMQTimestamp::now();
    assert!(timestamp.as_micros() > 0);
}

#[test]
fn test_timestamp_to_micros() {
    let timestamp = RobustMQTimestamp::from(1738405752756068);
    assert_eq!(timestamp.as_micros(), 1738405752756068);
}

#[test]
fn timestamp_utc_text() {
    let timestamp = RobustMQTimestamp::from(1738405752756068);
    assert_eq!(
        timestamp.to_utc_string("%Y-%m-%d %H:%M:%S"),
        "2025-02-01 10:29:12"
    );
}

#[test]
fn test_timestamp_from_u64() {
    let timestamp = RobustMQTimestamp::from(1738405752756068);
    assert_eq!(timestamp.as_micros(), 1738405752756068);
}

#[test]
fn timestamp_parts() {
    let timestamp = RobustMQTimestamp::from(1738405752756068);
    assert_eq!(timestamp.to_secs(), 1738405752);
    assert_eq!(timestamp.as_millis(), 1738405752756);
    assert_eq!(u64::from(timestamp), 1738405752756068);
    assert_eq!(RobustMQTimestamp::zero().as_micros(), 0);
    assert_eq!(timestamp.to_string(), "2025-02-01 10:29:12");
    assert!(get_current_millisecond_timestamp() > 1_700_000_000_000);
}

#[test]
fn timestamp_bad_format_is_empty() {
    let timestamp = RobustMQTimestamp::from(1738405752756068);
    assert_eq!(timestamp.to_utc_string("%Q"), "");
}
