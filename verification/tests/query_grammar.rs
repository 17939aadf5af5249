use meteomatics::components::{Format, Opt, Optionals, Parameters, P};
use meteomatics::location::{BBox, Locations, Point};
use meteomatics::query::{build_grid_query_specs, build_grid_ts_lightning_query_specs,
    build_grid_ts_query_specs, build_route_query_specs, build_ts_query_specs, dates_to_str};
use meteomatics::time::{DateTimeUtc, TimeSeries};

fn point(lat: f64, lon: f64) -> Point {
    Point { lat: format!("{}", lat), lon: format!("{}", lon) }
}

// checks if the location specifier is correctly created
#[test]
fn check_locations_string() {
    let p1: Point = point(52.520551, 13.461804);
    let p2: Point = point(-52.520551, 13.461804);
    let coords: Vec<Point> = vec![p1, p2];
    let coord_str = meteomatics::location::points_to_str(&coords);
    assert_eq!("52.520551,13.461804+-52.520551,13.461804", coord_str);
}

#[test]
fn check_grid_string() {
    let bbox: BBox = BBox {
        lat_min: format!("{}", -90.0),
        lat_max: format!("{}", 90.0),
        lon_min: format!("{}", -180.0),
        lon_max: format!("{}", 180.0),
        lat_res: format!("{}", 5.0),
        lon_res: format!("{}", 5.0),
    };
    let coord_str = bbox.as_string();
    assert_eq!("90,-180_-90,180:5,5", coord_str);
}

// checks if the query specs are correctly built
#[test]
fn check_ts_query_specs_string() {
    // seconds
    let start_date = DateTimeUtc::new(2022, 5, 17, 12, 00, 00, 0);
    let time_series = TimeSeries {
        start: start_date,
        end: DateTimeUtc::new(2022, 5, 18, 12, 00, 00, 0),
        timedelta: Some(3600),
    };

    let parameters: Vec<String> = vec![String::from("t_2m:C")];
    let p1: Point = point(52.520551, 13.461804);
    let coords: Vec<Point> = vec![p1];
    let coord_str = meteomatics::location::points_to_str(&coords);

    let query_s = build_ts_query_specs(&time_series, &parameters, &coord_str, &None, "csv");
    assert_eq!(
        "2022-05-17T12:00:00+00:00--2022-05-18T12:00:00+00:00:PT3600S/t_2m:C/52.520551,13.461804/csv",
        query_s
    );

    // microseconds
    let time_series = TimeSeries {
        start: DateTimeUtc::new(2022, 5, 17, 12, 00, 00, 453_829_000),
        end: DateTimeUtc::new(2022, 5, 18, 12, 00, 00, 453_829_000),
        timedelta: Some(3600),
    };

    let query_ms = build_ts_query_specs(&time_series, &parameters, &coord_str, &None, "csv");
    assert_eq!(
        "2022-05-17T12:00:00.453829+00:00--2022-05-18T12:00:00.453829+00:00:PT3600S/t_2m:C/52.520551,13.461804/csv",
        query_ms
    );

    // nanoseconds
    let time_series = TimeSeries {
        start: DateTimeUtc::new(2022, 5, 17, 12, 00, 00, 453_829_123),
        end: DateTimeUtc::new(2022, 5, 18, 12, 00, 00, 453_829_123),
        timedelta: Some(3600),
    };

    let query_ns = build_ts_query_specs(&time_series, &parameters, &coord_str, &None, "csv");
    assert_eq!(
        "2022-05-17T12:00:00.453829123+00:00--2022-05-18T12:00:00.453829123+00:00:PT3600S/t_2m:C/52.520551,13.461804/csv",
        query_ns
    );
}

#[test]
fn with_some_values() {
    // Single point
    let locations = Locations {
        coordinates: vec![String::from("47.419708"), String::from("9.358478")],
    };
    assert_eq!(locations.as_string(), "47.419708,9.358478");

    // Point list
    let locations = Locations {
        coordinates: vec![
            String::from("47.41"),
            String::from("9.35+47.51"),
            String::from("8.74+47.13"),
            String::from("8.22"),
        ],
    };
    assert_eq!(locations.as_string(), "47.41,9.35+47.51,8.74+47.13,8.22");

    // Postal codes
    let locations = Locations {
        coordinates: vec![
            String::from("postal_CH9014"),
            String::from("postal_CH9000"),
            String::from("postal_US10001"),
            String::from("postal_GBW2"),
        ],
    };
    assert_eq!(
        locations.as_string(),
        "postal_CH9014,postal_CH9000,postal_US10001,postal_GBW2"
    );

    // Line
    let locations = Locations {
        coordinates: vec![String::from("50"), String::from("10_50"), String::from("20:100")],
    };
    assert_eq!(locations.as_string(), "50,10_50,20:100");
}

#[test]
fn with_values() {
    let optionals = Optionals {
        opt_values: vec![
            Opt { k: String::from("source"), v: String::from("mix") },
            Opt { k: String::from("calibrated"), v: String::from("true") },
        ],
    };
    assert_eq!(optionals.as_string(), "source=mix&calibrated=true");
    assert_ne!(
        optionals.opt_values,
        vec![Opt { k: String::from("source"), v: String::from("mix") }]
    );
}

#[test]
fn parameters_with_some_values() {
    let params = Parameters {
        p_values: vec![
            P { k: String::from("t_2m"), v: Some(String::from("C")) },
            P { k: String::from("precip_1h"), v: Some(String::from("mm")) },
        ],
    };
    assert_eq!(params.as_string(), "t_2m:C,precip_1h:mm");
    assert_ne!(params.p_values, vec![P { k: String::from("t_2m"), v: Some(String::from("C")) }]);
}

#[test]
fn with_none_values() {
    let params = Parameters {
        p_values: vec![
            P { k: String::from("precip_1h"), v: Some(String::from("mm")) },
            P { k: String::from("wind_speed_10m"), v: None },
        ],
    };
    assert_eq!(params.as_string(), "precip_1h:mm,wind_speed_10m");
}

#[test]
fn format_renders_as_csv() {
    assert_eq!(Format::CSV.as_string(), "csv");
}

#[test]
fn empty_optionals_leave_no_question_mark() {
    let ts = TimeSeries {
        start: DateTimeUtc::new(2022, 5, 17, 12, 0, 0, 0),
        end: DateTimeUtc::new(2022, 5, 18, 12, 0, 0, 0),
        timedelta: Some(3600),
    };
    let params = vec![String::from("t_2m:C")];

    let none_case = build_ts_query_specs(&ts, &params, "1,2", &None, "csv");
    assert!(!none_case.contains('?'));

    let empty_case = build_ts_query_specs(&ts, &params, "1,2", &Some(vec![]), "csv");
    assert!(!empty_case.contains('?'));
    assert_eq!(none_case, empty_case);

    let optionals = Some(vec![String::from("a=b"), String::from("c=d")]);
    let full_case = build_ts_query_specs(&ts, &params, "1,2", &optionals, "csv");
    assert_eq!(
        full_case,
        "2022-05-17T12:00:00+00:00--2022-05-18T12:00:00+00:00:PT3600S/t_2m:C/1,2/csv?a=b&c=d"
    );
}

#[test]
fn grid_query_fragment_is_exact() {
    let date = DateTimeUtc::new(1989, 11, 9, 18, 0, 0, 0);
    let query = build_grid_query_specs(&date, "t_2m:C", "90,-180_-90,180:5,5", &None, "csv");
    assert_eq!(query, "1989-11-09T18:00:00+00:00/t_2m:C/90,-180_-90,180:5,5/csv");

    let with_opts = build_grid_query_specs(
        &date,
        "t_2m:C",
        "90,-180_-90,180:5,5",
        &Some(vec![String::from("model=mix")]),
        "png",
    );
    assert_eq!(with_opts, "1989-11-09T18:00:00+00:00/t_2m:C/90,-180_-90,180:5,5/png?model=mix");
}

#[test]
fn grid_ts_query_fragment_is_exact() {
    let ts = TimeSeries {
        start: DateTimeUtc::new(1989, 11, 9, 18, 0, 0, 0),
        end: DateTimeUtc::new(1989, 11, 10, 18, 0, 0, 0),
        timedelta: Some(43200),
    };
    let query = build_grid_ts_query_specs(&ts, "t_2m:C", "52.5,13.4_52.4,13.5:0.05,0.05",
        "netcdf", &None);
    assert_eq!(
        query,
        "1989-11-09T18:00:00+00:00--1989-11-10T18:00:00+00:00:PT43200S/t_2m:C/52.5,13.4_52.4,13.5:0.05,0.05/netcdf"
    );
}

#[test]
fn lightning_query_fragment_is_exact() {
    let ts = TimeSeries {
        start: DateTimeUtc::new(2022, 5, 20, 10, 0, 0, 0),
        end: DateTimeUtc::new(2022, 5, 21, 10, 0, 0, 0),
        timedelta: None,
    };
    let bbox = BBox {
        lat_min: String::from("45.8179716"),
        lat_max: String::from("47.8084648"),
        lon_min: String::from("5.9559113"),
        lon_max: String::from("10.4922941"),
        lat_res: String::from("0"),
        lon_res: String::from("0"),
    };
    let coords = bbox.corners_string();
    assert_eq!(coords, "47.8084648,5.9559113_45.8179716,10.4922941");
    let query = build_grid_ts_lightning_query_specs(&ts, &coords);
    assert_eq!(
        query,
        "get_lightning_list?time_range=2022-05-20T10:00:00+00:00--2022-05-21T10:00:00+00:00&bounding_box=47.8084648,5.9559113_45.8179716,10.4922941&format=csv"
    );
}

#[test]
fn route_query_fragment_is_exact() {
    let dates = vec![
        DateTimeUtc::new(2021, 5, 25, 12, 0, 0, 0),
        DateTimeUtc::new(2021, 5, 25, 13, 0, 0, 0),
    ];
    let dates_str = dates_to_str(&dates);
    assert_eq!(dates_str, "2021-05-25T12:00:00+00:00,2021-05-25T13:00:00+00:00");
    let query = build_route_query_specs(&dates_str, "t_2m:C,precip_1h:mm", "47.1,9.3+47.2,9.4");
    assert_eq!(
        query,
        "2021-05-25T12:00:00+00:00,2021-05-25T13:00:00+00:00/t_2m:C,precip_1h:mm/47.1,9.3+47.2,9.4/csv?route=true"
    );
}
