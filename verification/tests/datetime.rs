use lune::datetime::{
    local_result, DateTime, DateTimeBuilder, Month, MonthInput, TimestampInput, TimestampType, Timezone,
    TimezoneInput,
};

fn builder(y: i32, mo: Month, d: u32, h: u32, mi: u32, s: u32, ms: u32) -> DateTimeBuilder {
    DateTimeBuilder::default()
        .with_year(y)
        .with_month(mo)
        .with_day(d)
        .with_hour(h)
        .with_minute(mi)
        .with_second(s)
        .with_millisecond(ms)
        .build()
}

#[test]
fn datetime_months_roundtrip() {
    for n in 1..=12u32 {
        assert_eq!(Month::from_number(n).unwrap().number(), n);
    }
    assert_eq!(Month::from_number(0), None);
    assert_eq!(Month::from_number(13), None);
}

#[test]
fn datetime_builder_default_is_epoch() {
    let b = DateTimeBuilder::default();
    assert_eq!((b.year, b.month, b.day, b.hour, b.minute, b.second, b.millisecond), (1970, 1, 1, 0, 0, 0, 0));
    let b = builder(2020, Month::March, 4, 5, 6, 7, 8);
    assert_eq!((b.year, b.month, b.day, b.hour, b.minute, b.second, b.millisecond), (2020, 3, 4, 5, 6, 7, 8));
}

#[test]
fn datetime_from_unix_timestamp() {
    let d = DateTime::from_unix_timestamp(TimestampType::Seconds, 1577961045);
    assert_eq!(d.unix_timestamp, 1577961045);
    assert_eq!(d.unix_timestamp_millis, 1577961045000);
    let d = DateTime::from_unix_timestamp(TimestampType::Millis, -1500);
    assert_eq!(d.unix_timestamp_millis, -1500);
    assert_eq!(d.unix_timestamp, -2);
    let d = DateTime::from_unix_timestamp(TimestampType::Millis, 1999);
    assert_eq!(d.unix_timestamp, 1);
}

#[test]
fn datetime_from_universal_time() {
    let d = DateTime::from_universal_time(Some(builder(2020, Month::January, 2, 10, 30, 45, 123))).unwrap();
    assert_eq!(d.unix_timestamp, 1577961045);
    assert_eq!(d.unix_timestamp_millis, 1577961045123);
    // time units past their usual range roll over
    let d = DateTime::from_universal_time(Some(builder(2021, Month::March, 4, 0, 90, 0, 0))).unwrap();
    assert_eq!(d.unix_timestamp, 1614821400);
    // a date that does not exist fails
    assert!(DateTime::from_universal_time(Some(builder(2021, Month::February, 30, 0, 0, 0, 0))).is_err());
    // no values: the current moment
    let now = DateTime::from_universal_time(None).unwrap();
    assert!(now.unix_timestamp > 1577961045);
    assert_eq!(now.unix_timestamp, now.unix_timestamp_millis.div_euclid(1000));
}

#[test]
fn datetime_iso_and_back() {
    let d = DateTime::from_iso_date("2020-01-02T10:30:45Z").unwrap();
    assert_eq!(d.unix_timestamp, 1577961045);
    assert_eq!(d.unix_timestamp_millis, 1577961045000);
    assert!(DateTime::from_iso_date("not a date").is_none());
    let b = d.to_universal_time().unwrap();
    assert_eq!(b, builder(2020, Month::January, 2, 10, 30, 45, 0));
    let back = DateTime::from_universal_time(Some(b)).unwrap();
    assert_eq!(back, d);
}

#[test]
fn datetime_to_builder_checks_month() {
    assert!(DateTime::to_datetime_builder((2000, 13, 1, 0, 0, 0)).is_err());
    assert_eq!(
        DateTime::to_datetime_builder((1999, 12, 31, 23, 59, 59)).unwrap(),
        builder(1999, Month::December, 31, 23, 59, 59, 0)
    );
}

#[test]
fn datetime_local_time_is_consistent() {
    let d = DateTime::from_unix_timestamp(TimestampType::Seconds, 946684799);
    let local = d.to_local_time().unwrap();
    assert!(1 <= local.month && local.month <= 12);
    assert_eq!(local.millisecond, 0);
    let again = DateTime::from_local_time(Some(local)).unwrap();
    assert_eq!(again.unix_timestamp, 946684799);
}

#[test]
fn datetime_format_request() {
    let b = builder(1999, Month::December, 31, 23, 59, 59, 0);
    let q = b.format_request(Timezone::Utc, None, None).unwrap();
    assert_eq!(q.unix_timestamp, 946684799);
    assert_eq!(q.timezone, Timezone::Utc);
    assert_eq!(q.format, "%Y-%m-%dT%H:%M:%SZUTC+%z");
    assert_eq!(q.locale, "en");
    let q = b.format_request(Timezone::Local, Some("%Y".to_string()), Some("fr".to_string())).unwrap();
    assert_eq!(q.format, "%Y");
    assert_eq!(q.locale, "fr");
    assert!(builder(1999, Month::December, 31, 24, 0, 0, 0).format_request(Timezone::Utc, None, None).is_err());
}

#[test]
fn datetime_month_field() {
    assert_eq!(Month::from_lua(&MonthInput::String("january".to_string())), Ok(Month::January));
    assert_eq!(Month::from_lua(&MonthInput::String("SEP".to_string())), Ok(Month::September));
    assert_eq!(Month::from_lua(&MonthInput::String("May".to_string())), Ok(Month::May));
    assert_eq!(
        Month::from_lua(&MonthInput::String("Sept".to_string())),
        Err("could not cast month string to Month".to_string())
    );
    assert_eq!(Month::from_lua(&MonthInput::Number(12)), Ok(Month::December));
    assert_eq!(
        Month::from_lua(&MonthInput::Number(13)),
        Err("could not cast month number to Month".to_string())
    );
    // an integer is cut to its low byte first
    assert_eq!(Month::from_lua(&MonthInput::Integer(257)), Ok(Month::January));
    assert_eq!(
        Month::from_lua(&MonthInput::Integer(0)),
        Err("could not cast month integer to Month".to_string())
    );
    assert_eq!(
        Month::from_lua(&MonthInput::Nil),
        Err("cannot find mandatory month argument".to_string())
    );
    assert_eq!(Month::from_lua(&MonthInput::Other), Err("unexpected month field type".to_string()));
}

#[test]
fn datetime_timestamp_units() {
    assert_eq!(TimestampType::from_lua(TimestampInput::Integer), Ok(TimestampType::Seconds));
    assert_eq!(
        TimestampType::from_lua(TimestampInput::Number { whole: true }),
        Ok(TimestampType::Seconds)
    );
    assert_eq!(
        TimestampType::from_lua(TimestampInput::Number { whole: false }),
        Ok(TimestampType::Millis)
    );
    assert_eq!(
        TimestampType::from_lua(TimestampInput::Other),
        Err("Invalid enum type, number or integer expected".to_string())
    );
}

#[test]
fn datetime_timezone_names() {
    assert_eq!(Timezone::from_lua(&TimezoneInput::String("UTC".to_string())), Ok(Timezone::Utc));
    assert_eq!(Timezone::from_lua(&TimezoneInput::String("Local".to_string())), Ok(Timezone::Local));
    assert_eq!(
        Timezone::from_lua(&TimezoneInput::String("gmt".to_string())),
        Err("Invalid enum member!".to_string())
    );
    assert_eq!(
        Timezone::from_lua(&TimezoneInput::Other),
        Err("Invalid enum type, string expected".to_string())
    );
}

#[test]
fn datetime_local_time_of_now_and_in_range() {
    let now = DateTime::from_local_time(None).unwrap();
    assert_eq!(now.unix_timestamp, now.unix_timestamp_millis.div_euclid(1000));
    assert!(DateTime::from_unix_timestamp(TimestampType::Seconds, 0).to_local_time().is_ok());
    let far = DateTime { unix_timestamp: i64::MAX, unix_timestamp_millis: i64::MAX };
    assert!(far.to_local_time().is_err());
}

#[test]
fn datetime_universal_time_keeps_milliseconds() {
    let d = DateTime { unix_timestamp: 1577961045, unix_timestamp_millis: 1577961045500 };
    let b = d.to_universal_time().unwrap();
    assert_eq!(
        (b.year, b.month, b.day, b.hour, b.minute, b.second, b.millisecond),
        (2020, 1, 2, 10, 30, 45, 500)
    );
    assert_eq!(DateTime::from_universal_time(Some(b)).unwrap(), d);
    let before = DateTime { unix_timestamp: -2, unix_timestamp_millis: -1500 };
    let b = before.to_universal_time().unwrap();
    assert_eq!((b.year, b.hour, b.minute, b.second, b.millisecond), (1969, 23, 59, 58, 500));
    assert_eq!(DateTime::from_universal_time(Some(b)).unwrap(), before);
    assert_eq!(before.to_local_time().unwrap().millisecond, 500);
}

#[test]
fn datetime_local_results() {
    let d = local_result(Some(10), 1500).unwrap();
    assert_eq!((d.unix_timestamp, d.unix_timestamp_millis), (10, 10500));
    let d = local_result(Some(-3), -1500).unwrap();
    assert_eq!((d.unix_timestamp, d.unix_timestamp_millis), (-3, -2500));
    assert!(local_result(None, 1500).is_err());
    assert!(local_result(Some(i64::MAX), 0).is_err());
}

#[test]
fn datetime_timestamp_range_edges() {
    let last = DateTime::from_unix_timestamp(TimestampType::Seconds, 8_210_266_876_799);
    assert_eq!(last.unix_timestamp, 8_210_266_876_799);
    let b = last.to_universal_time().unwrap();
    assert_eq!((b.year, b.month, b.day, b.hour, b.minute, b.second), (262142, 12, 31, 23, 59, 59));
    let first = DateTime::from_unix_timestamp(TimestampType::Seconds, -8_334_601_228_800);
    assert_eq!(first.unix_timestamp, -8_334_601_228_800);
    let b = first.to_universal_time().unwrap();
    assert_eq!((b.year, b.month, b.day, b.hour, b.minute, b.second), (-262143, 1, 1, 0, 0, 0));
    let beyond = DateTime::from_unix_timestamp(TimestampType::Seconds, 8_210_266_876_800);
    assert_ne!(beyond.unix_timestamp, 8_210_266_876_800);
    let last_ms = DateTime::from_unix_timestamp(TimestampType::Millis, 8_210_266_876_799_999);
    assert_eq!(last_ms.unix_timestamp_millis, 8_210_266_876_799_999);
    let beyond_ms = DateTime::from_unix_timestamp(TimestampType::Millis, -8_334_601_228_800_001);
    assert_ne!(beyond_ms.unix_timestamp_millis, -8_334_601_228_800_001);
}
