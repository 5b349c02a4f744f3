use createos::duration::Duration;
use createos::error::tail;
use createos::text::{parse_u64, trim, u64_to_decimal, i64_to_decimal};

#[test]
fn tail_keeps_whole_characters() {
    assert_eq!(tail("hello", 10), "hello");
    assert_eq!(tail("hello", 3), "llo");
    assert_eq!(tail("héllo", 5), "éllo");
    assert_eq!(tail("héllo", 4), "llo");
    assert_eq!(tail("日本", 4), "本");
    assert_eq!(tail("abc", 0), "");
}

#[test]
fn decimal_text_round_trips() {
    assert_eq!(u64_to_decimal(0), "0");
    assert_eq!(u64_to_decimal(u64::MAX), "18446744073709551615");
    assert_eq!(i64_to_decimal(i64::MIN), "-9223372036854775808");
    assert_eq!(parse_u64("18446744073709551615"), Some(u64::MAX));
    assert_eq!(parse_u64("18446744073709551616"), None);
    assert_eq!(parse_u64("+5"), Some(5));
    assert_eq!(parse_u64(""), None);
    assert_eq!(parse_u64("1a"), None);
    assert_eq!(trim("\u{3000} x y\t"), "x y");
}

#[test]
fn durations_saturate_and_compare() {
    let max = Duration::max_value();
    assert_eq!(max.saturating_add(Duration::from_secs(1)), max);
    assert_eq!(Duration::from_millis(1500).as_secs(), 1);
    assert_eq!(Duration::from_millis(1500).subsec_nanos(), 500_000_000);
    assert_eq!(Duration::from_millis(1500).as_millis(), 1500);
    assert_eq!(Duration::from_secs(2).saturating_mul(3), Duration::from_secs(6));
    assert!(Duration::from_secs(1).lt(&Duration::from_millis(1001)));
    assert_eq!(Duration::from_secs(5).min(Duration::from_secs(3)), Duration::from_secs(3));
    assert_eq!(max.checked_add(Duration::new(0, 1)), None);
    assert_eq!(Duration::new(1, 1_500_000_000).as_millis(), 2500);
    assert!(Duration::zero().is_zero());
}
