use meteomatics::errors::ConnectorError;
use meteomatics::location::Point;
use meteomatics::response::{check_http_status, process_grid_pivoted_response,
    process_grid_unpivoted_response, process_lightning_response, process_route_response,
    process_time_series_postal_response, process_time_series_response};
use meteomatics::table::{parse_grid_response_to_df, parse_response_to_df, ResponseTable};

fn point(lat: f64, lon: f64) -> Point {
    Point { lat: format!("{}", lat), lon: format!("{}", lon) }
}

#[test]
fn single_point_synthesises_latlon_columns() {
    let body = "validdate;t_2m:C\n1989-11-09T18:00:00Z;6.8\n1989-11-10T06:00:00Z;1.4\n";
    let coords = vec![point(52.52, 13.405)];
    let table = process_time_series_response(200, body, &coords).unwrap();
    assert_eq!(table.headers, vec!["lat", "lon", "validdate", "t_2m:C"]);
    assert_eq!(table.rows.len(), 2);
    assert_eq!(table.rows[0], vec!["52.52", "13.405", "1989-11-09T18:00:00Z", "6.8"]);
    assert_eq!(table.rows[1], vec!["52.52", "13.405", "1989-11-10T06:00:00Z", "1.4"]);
}

#[test]
fn two_points_decode_without_synthesis() {
    let body = "lat;lon;validdate;t_2m:C\n52.52;13.405;1989-11-09T18:00:00Z;6.8\n47.4;9.3;1989-11-09T18:00:00Z;2.2\n";
    let coords = vec![point(52.52, 13.405), point(47.4, 9.3)];
    let table = process_time_series_response(200, body, &coords).unwrap();
    assert_eq!(table.headers, vec!["lat", "lon", "validdate", "t_2m:C"]);
    assert_eq!(table.rows.len(), 2);
    assert_eq!(table.rows[0], vec!["52.52", "13.405", "1989-11-09T18:00:00Z", "6.8"]);
}

#[test]
fn single_postal_synthesises_station_column() {
    let body = "validdate;t_2m:C\n1989-11-09T18:00:00Z;6.8\n";
    let postals = vec![String::from("postal_CH9000")];
    let table = process_time_series_postal_response(200, body, &postals).unwrap();
    assert_eq!(table.headers, vec!["station_id", "validdate", "t_2m:C"]);
    assert_eq!(table.rows[0], vec!["postal_CH9000", "1989-11-09T18:00:00Z", "6.8"]);
}

#[test]
fn two_postals_decode_without_synthesis() {
    let body = "station_id;validdate;t_2m:C\npostal_CH8000;1989-11-09T18:00:00Z;6.8\npostal_CH9000;1989-11-09T18:00:00Z;5.1\n";
    let postals = vec![String::from("postal_CH8000"), String::from("postal_CH9000")];
    let table = process_time_series_postal_response(200, body, &postals).unwrap();
    assert_eq!(table.headers, vec!["station_id", "validdate", "t_2m:C"]);
    assert_eq!(table.rows.len(), 2);
}

#[test]
fn pivoted_grid_skips_exactly_two_preamble_lines() {
    let tail = "data;-180;-90\n90;1.1;2.2\n-90;3.3;4.4\n";
    let body = format!("lat;lon\nunit;t_2m:C\n{}", tail);
    let skipped = process_grid_pivoted_response(200, &body).unwrap();
    let direct = parse_response_to_df(tail).unwrap();
    assert_eq!(skipped, direct);
    assert_eq!(skipped.headers, vec!["data", "-180", "-90"]);
    assert_eq!(skipped.rows.len(), 2);

    // One preamble line fewer and the same decode must not agree with the
    // direct parse: the skip count is exactly two.
    let short_body = format!("unit;t_2m:C\n{}", tail);
    let shifted = parse_grid_response_to_df(&short_body);
    match shifted {
        Ok(t) => assert_ne!(t, direct),
        Err(_) => {},
    }
}

#[test]
fn unpivoted_grid_decodes_directly() {
    let body = "lat;lon;validdate;t_2m:C;precip_1h:mm\n52.5;13.4;1989-11-09T18:00:00Z;6.8;0\n";
    let table = process_grid_unpivoted_response(200, body).unwrap();
    assert_eq!(table.headers, vec!["lat", "lon", "validdate", "t_2m:C", "precip_1h:mm"]);
    assert_eq!(table.rows[0], vec!["52.5", "13.4", "1989-11-09T18:00:00Z", "6.8", "0"]);
}

#[test]
fn route_response_decodes_directly() {
    let body = "lat;lon;validdate;t_2m:C\n47.1;9.3;2021-05-25T12:00:00Z;10\n";
    let table = process_route_response(200, body).unwrap();
    assert_eq!(table.headers, vec!["lat", "lon", "validdate", "t_2m:C"]);
}

#[test]
fn lightning_columns_are_renamed() {
    let body = "stroke_time:sql;stroke_lat:d;stroke_lon:d\n2022-05-20T10:02:00Z;47.1;9.2\n";
    let table = process_lightning_response(200, body).unwrap();
    assert_eq!(table.headers, vec!["validdate", "lat", "lon"]);
    assert!(!table.headers.contains(&String::from("stroke_time:sql")));
    assert!(!table.headers.contains(&String::from("stroke_lat:d")));
    assert!(!table.headers.contains(&String::from("stroke_lon:d")));
    assert_eq!(table.rows[0], vec!["2022-05-20T10:02:00Z", "47.1", "9.2"]);
}

#[test]
fn lightning_missing_column_is_a_decode_error() {
    let body = "stroke_time:sql;stroke_lat:d;other\n2022-05-20T10:02:00Z;47.1;9.2\n";
    let res = process_lightning_response(200, body);
    assert!(matches!(res, Err(ConnectorError::DecodeError(_))));
}

#[test]
fn non_2xx_status_propagates_without_decoding() {
    let coords = vec![point(52.52, 13.405)];
    let res = process_time_series_response(403, "forbidden", &coords);
    assert_eq!(res, Err(ConnectorError::HttpError(403, String::from("forbidden"))));

    let res = process_lightning_response(500, "boom");
    assert_eq!(res, Err(ConnectorError::HttpError(500, String::from("boom"))));

    let res = check_http_status(404, "missing");
    assert_eq!(res, Err(ConnectorError::HttpError(404, String::from("missing"))));
    assert_eq!(check_http_status(200, "ignored"), Ok(()));
}

#[test]
fn ragged_lines_are_a_decode_error() {
    let body = "lat;lon;validdate\n52.5;13.4\n";
    let res = parse_response_to_df(body);
    assert!(matches!(res, Err(ConnectorError::DecodeError(_))));
}

#[test]
fn empty_body_is_a_decode_error() {
    let res = parse_response_to_df("");
    assert!(matches!(res, Err(ConnectorError::DecodeError(_))));
    let res = parse_grid_response_to_df("lat;lon\nunit;t_2m:C\n");
    assert!(matches!(res, Err(ConnectorError::DecodeError(_))));
}

#[test]
fn crlf_lines_decode_like_unix_lines() {
    let unix = parse_response_to_df("a;b\n1;2\n").unwrap();
    let dos = parse_response_to_df("a;b\r\n1;2\r\n").unwrap();
    assert_eq!(unix, dos);
}

#[test]
fn header_only_body_decodes_to_zero_rows() {
    let table = parse_response_to_df("lat;lon;validdate;t_2m:C\n").unwrap();
    assert_eq!(table.headers.len(), 4);
    assert_eq!(table.rows.len(), 0);
}

#[test]
fn columns_are_read_by_name() {
    let body = "validdate;t_2m:C\n1989-11-09T18:00:00Z;6.8\n1989-11-10T06:00:00Z;1.4\n";
    let coords = vec![point(52.52, 13.405)];
    let table = process_time_series_response(200, body, &coords).unwrap();
    assert_eq!(table.column("lat").unwrap(), vec!["52.52", "52.52"]);
    assert_eq!(table.column("t_2m:C").unwrap(), vec!["6.8", "1.4"]);
    assert_eq!(
        table.column("validdate").unwrap(),
        vec!["1989-11-09T18:00:00Z", "1989-11-10T06:00:00Z"]
    );
    assert!(table.column("absent").is_none());
}

#[test]
fn tables_rename_only_exact_matches() {
    let mut table = ResponseTable {
        headers: vec![String::from("stroke_lat:d"), String::from("stroke_lat")],
        rows: vec![],
    };
    table.rename("stroke_lat:d", "lat").unwrap();
    assert_eq!(table.headers, vec!["lat", "stroke_lat"]);
    let missing = table.rename("absent", "other");
    assert!(matches!(missing, Err(ConnectorError::DecodeError(_))));
}
