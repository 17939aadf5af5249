use meteomatics::series::png_file_name;
use meteomatics::time::{DateTimeUtc, PeriodDate, PeriodTime, TimeSeries};

#[test]
fn rfc3339_keeps_the_precision_of_the_input() {
    let whole = DateTimeUtc::new(2022, 5, 17, 12, 0, 0, 0);
    assert_eq!(whole.to_rfc3339(), "2022-05-17T12:00:00+00:00");

    let millis = DateTimeUtc::new(2022, 5, 17, 12, 0, 0, 453_000_000);
    assert_eq!(millis.to_rfc3339(), "2022-05-17T12:00:00.453+00:00");

    let micros = DateTimeUtc::new(2022, 5, 17, 12, 0, 0, 453_829_000);
    assert_eq!(micros.to_rfc3339(), "2022-05-17T12:00:00.453829+00:00");

    let nanos = DateTimeUtc::new(2022, 5, 17, 12, 0, 0, 453_829_123);
    assert_eq!(nanos.to_rfc3339(), "2022-05-17T12:00:00.453829123+00:00");
}

#[test]
fn rfc3339_zero_pads_every_field() {
    let dt = DateTimeUtc::new(989, 1, 9, 8, 5, 7, 0);
    assert_eq!(dt.to_rfc3339(), "0989-01-09T08:05:07+00:00");
}

#[test]
fn interval_renders_start_end_and_step() {
    let ts = TimeSeries {
        start: DateTimeUtc::new(2022, 5, 17, 12, 0, 0, 453_829_123),
        end: DateTimeUtc::new(2022, 5, 18, 12, 0, 0, 453_829_123),
        timedelta: Some(3600),
    };
    assert_eq!(
        ts.as_string(),
        "2022-05-17T12:00:00.453829123+00:00--2022-05-18T12:00:00.453829123+00:00:PT3600S"
    );
}

#[test]
fn periods_render_as_iso8601() {
    assert_eq!(PeriodDate::Days(1).as_string(), "P1D");
    assert_eq!(PeriodDate::Years(3).as_string(), "P3Y");
    assert_eq!(PeriodDate::Months(6).as_string(), "P6M");
    assert_eq!(PeriodTime::Hours(1).as_string(), "PT1H");
    assert_eq!(PeriodTime::Minutes(30).as_string(), "PT30M");
    assert_eq!(PeriodTime::Seconds(86400).as_string(), "PT86400S");
    assert_eq!(PeriodTime::Seconds(-5).as_string(), "PT-5S");
    assert_eq!(PeriodDate::Days(-2).as_string(), "P-2D");
}

#[test]
fn try_new_rejects_impossible_dates() {
    assert!(DateTimeUtc::try_new(2021, 2, 29, 0, 0, 0, 0).is_none());
    assert!(DateTimeUtc::try_new(2020, 2, 29, 0, 0, 0, 0).is_some());
    assert!(DateTimeUtc::try_new(2020, 13, 1, 0, 0, 0, 0).is_none());
    assert!(DateTimeUtc::try_new(2020, 4, 31, 0, 0, 0, 0).is_none());
    assert!(DateTimeUtc::try_new(2020, 4, 30, 24, 0, 0, 0).is_none());
    assert!(DateTimeUtc::try_new(1900, 2, 29, 0, 0, 0, 0).is_none());
    assert!(DateTimeUtc::try_new(2000, 2, 29, 0, 0, 0, 0).is_some());
}

#[test]
fn add_seconds_steps_through_the_calendar() {
    let dt = DateTimeUtc::new(2022, 5, 17, 12, 0, 0, 7);
    let next = dt.add_seconds(86400).unwrap();
    assert_eq!(next, DateTimeUtc::new(2022, 5, 18, 12, 0, 0, 7));

    let leap = DateTimeUtc::new(2020, 2, 28, 0, 0, 0, 0).add_seconds(86400).unwrap();
    assert_eq!(leap, DateTimeUtc::new(2020, 2, 29, 0, 0, 0, 0));

    let plain = DateTimeUtc::new(2021, 2, 28, 0, 0, 0, 0).add_seconds(86400).unwrap();
    assert_eq!(plain, DateTimeUtc::new(2021, 3, 1, 0, 0, 0, 0));

    let rollover = DateTimeUtc::new(2020, 12, 31, 23, 59, 59, 0).add_seconds(1).unwrap();
    assert_eq!(rollover, DateTimeUtc::new(2021, 1, 1, 0, 0, 0, 0));

    let end_of_time = DateTimeUtc::new(9999, 12, 31, 23, 59, 59, 0).add_seconds(1);
    assert!(end_of_time.is_none());
}

#[test]
fn timestamp_counts_seconds_from_the_calendar_start() {
    let epoch = DateTimeUtc::new(1970, 1, 1, 0, 0, 0, 0);
    assert_eq!(epoch.timestamp_secs(), 62_135_596_800);
    let later = DateTimeUtc::new(1970, 1, 2, 3, 4, 5, 0);
    assert_eq!(later.timestamp_secs(), 62_135_596_800 + 86400 + 3 * 3600 + 4 * 60 + 5);
}

#[test]
fn ordering_follows_the_timeline() {
    let a = DateTimeUtc::new(1989, 11, 9, 18, 0, 0, 0);
    let b = DateTimeUtc::new(1989, 11, 10, 6, 0, 0, 0);
    assert!(a.is_not_after(&b));
    assert!(!b.is_not_after(&a));
    assert!(a.is_not_after(&a));
    let a_nanos = DateTimeUtc::new(1989, 11, 9, 18, 0, 0, 500);
    assert!(a.is_not_after(&a_nanos));
    assert!(!a_nanos.is_not_after(&a));
}

#[test]
fn png_series_schedule_walks_the_interval() {
    let ts = TimeSeries {
        start: DateTimeUtc::new(1989, 11, 9, 18, 0, 0, 0),
        end: DateTimeUtc::new(1989, 11, 10, 18, 0, 0, 0),
        timedelta: Some(43200),
    };
    let instants = meteomatics::series::png_series_instants(&ts);
    assert_eq!(
        instants,
        vec![
            DateTimeUtc::new(1989, 11, 9, 18, 0, 0, 0),
            DateTimeUtc::new(1989, 11, 10, 6, 0, 0, 0),
            DateTimeUtc::new(1989, 11, 10, 18, 0, 0, 0),
        ]
    );

    let backwards = TimeSeries {
        start: DateTimeUtc::new(1989, 11, 10, 18, 0, 0, 0),
        end: DateTimeUtc::new(1989, 11, 9, 18, 0, 0, 0),
        timedelta: Some(43200),
    };
    assert_eq!(meteomatics::series::png_series_instants(&backwards), vec![]);
}

#[test]
fn png_file_names_carry_the_compact_stamp() {
    let dt = DateTimeUtc::new(1989, 11, 9, 18, 0, 0, 0);
    assert_eq!(
        png_file_name("tests/png_series/test_series", &dt),
        "tests/png_series/test_series_19891109_180000.png"
    );
    let early = DateTimeUtc::new(2024, 3, 5, 7, 8, 9, 0);
    assert_eq!(png_file_name("p", &early), "p_20240305_070809.png");
}
