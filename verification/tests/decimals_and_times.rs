use oab_providers::decimal;
use oab_providers::decimal::Decimal;
use oab_providers::exchange;
use oab_providers::instant;
use oab_providers::instant::{Civil, Duration, Timestamp};
use oab_providers::providers::{xai, zenmux};
use oab_providers::transport::TransportError;
use std::time::{SystemTime, UNIX_EPOCH};

fn number(s: &str) -> Decimal {
    decimal::from_number(s).unwrap()
}

fn of_system(value: SystemTime) -> Result<Timestamp, TransportError> {
    match value.duration_since(UNIX_EPOCH) {
        Ok(d) => exchange::system_time_utc(false, d.as_secs(), d.subsec_nanos()),
        Err(e) => {
            exchange::system_time_utc(true, e.duration().as_secs(), e.duration().subsec_nanos())
        }
    }
}

#[test]
fn system_time_conversion_preserves_both_sides_of_the_epoch() {
    assert_eq!(of_system(UNIX_EPOCH).expect("epoch").unix_seconds(), 0);
    let before_epoch = UNIX_EPOCH
        .checked_sub(std::time::Duration::from_nanos(1))
        .expect("pre-epoch time");
    assert_eq!(of_system(before_epoch).expect("pre-epoch").nanos, -1);
}

#[test]
fn system_time_outside_the_calendar_is_refused() {
    assert_eq!(
        exchange::system_time_utc(false, u64::MAX, 0).err(),
        Some(TransportError::InvalidConfiguration)
    );
}

#[test]
fn numbers_are_read_in_plain_and_scientific_form() {
    assert_eq!(number("12.50"), Decimal { negative: false, magnitude: 1250, scale: 2 });
    assert_eq!(number("-1.5e2").to_i64(), Some(-150));
    assert!(decimal::from_number("abc").is_none());
    assert!(decimal::from_plain_number("0.25").unwrap().is_positive());
}

#[test]
fn decimal_arithmetic_is_exact() {
    let three = Decimal::of(3);
    let half = number("0.5");
    assert_eq!(three.plus(half).unwrap(), number("3.5"));
    assert_eq!(three.minus(half).unwrap(), number("2.5"));
    assert_eq!(three.times(half).unwrap(), number("1.5"));
    assert_eq!(three.over(half).unwrap().to_i64(), Some(6));
    assert!(three.over(Decimal::of(0)).is_none());
}

#[test]
fn clamped_numbers_stay_in_range() {
    let top = Decimal::of(100);
    assert_eq!(number("150").clamp_to(top), top);
    assert_eq!(number("-3").clamp_to(top), Decimal::of(0));
    assert_eq!(number("42.5").clamp_to(top), number("42.5"));
    assert_eq!(number("150").min_with(top), top);
    assert_eq!(number("-2").floor_zero(), Decimal::of(0));
    assert_eq!(Decimal::of_signed(-7).abs().trunc(), 7);
    assert!(number("1.5").is_integral() == false && number("2.00").is_integral());
}

#[test]
fn spans_are_compared_by_length() {
    let short = Duration::from_millis(1500);
    assert_eq!((short.seconds, short.nanos), (1, 500_000_000));
    assert!(short.is_shorter(Duration::from_secs(2)));
    assert_eq!(Duration::from_secs(2).at_most(short), short);
    assert!(Duration::from_secs(0).is_zero());
}

#[test]
fn instants_are_read_from_text() {
    let at = Timestamp::parse("2024-05-01T12:00:00Z").unwrap();
    assert_eq!(at.unix_seconds(), 1_714_564_800);
    assert_eq!(Timestamp::parse("2024-05-01T14:00:00+02:00").unwrap(), at);
    assert!(Timestamp::parse("yesterday").is_none());
    assert_eq!(at.day(), 19_844);
    assert_eq!(Timestamp { nanos: -1 }.unix_seconds(), -1);
    assert_eq!(Timestamp { nanos: -1 }.day(), -1);
    assert!(Timestamp::from_nanos(i128::MAX).is_none());
    assert!(Timestamp { nanos: i128::MAX }.within_calendar().is_none());
}

#[test]
fn calendar_readings_are_written_with_padding() {
    let c = Civil { year: 7, month: 3, day: 9, hour: 4, minute: 5, second: 6, weekday: 0 };
    assert_eq!(instant::day_of(c), "0007-03-09");
    assert_eq!(instant::moment_of(c), "0007-03-09 04:05:06");
    let ancient = Civil { year: -12, ..c };
    assert_eq!(instant::day_of(ancient), "-012-03-09");
    assert_eq!(instant::date_of(ancient), "-0012-03-09");
}

#[test]
fn decimals_are_rounded_half_to_even() {
    let dollars = |s: &str| xai::format_usd(number(s));
    assert_eq!(dollars("2.345"), "$2.34");
    assert_eq!(dollars("2.355"), "$2.36");
    assert_eq!(dollars("2.3451"), "$2.35");
    assert_eq!(dollars("-2.5"), "$-2.50");
    assert_eq!(dollars("-0.001"), "$0.00");
    assert_eq!(dollars("7"), "$7.00");
}

#[test]
fn further_digits_are_cut_off() {
    let flows = |s: &str| zenmux::format_flows(number(s));
    assert_eq!(flows("25.999"), "25.99");
    assert_eq!(flows("0.105"), "0.10");
    assert_eq!(flows("-0.001"), "-0.00");
    assert_eq!(flows("12.000"), "12");
}
