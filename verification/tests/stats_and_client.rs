use meteomatics::client::APIClient;
use meteomatics::entities::ResponseBody;
use meteomatics::errors::ConnectorError;
use meteomatics::net::{build_url, build_url_on};
use meteomatics::stats::{extract_user_statistics, process_user_features_response};
use meteomatics::table::ResponseTable;

#[test]
fn check_deserialization() {
    let s1 = r#"{"message" : "In case the limits don't match your understanding of the contr"#;
    let s2 = r#"act, please contact us (api@meteomatics.com). For other inquiries please wri"#;
    let s3 = r#"te to (support@meteomatics.com). Soft or hard limit values of 0 mean that th"#;
    let s4 = r#"e corresponding limit is not set.", "user statistics" : {"username" : "rusty"#;
    let s5 = r#"thecrab", "requests total" : {"used" : 4280, "soft limit" : 0, "hard limi"#;
    let s6 = r#"t" : 0}, "requests since last UTC midnight" : {"used" : 85, "soft limit" : 1"#;
    let s7 = r#"00000, "hard limit" : 0}, "requests since HH:00:00" : {"used" : 85, "soft lim"#;
    let s8 = r#"it" : 10000, "hard limit" : 0}, "requests in the last 60 seconds" : {"used" :"#;
    let s9 = r#" 0, "soft limit" : 0, "hard limit" : 6000}, "requests in parallel" : {"used" "#;
    let s10 = r#": 0, "soft limit" : 20, "hard limit" : 500}, "historic request option" : "19"#;
    let s11 = r#"00-01-01T00:00:00Z--2100-01-01T00:00:00Z", "area request option" : true, "mo"#;
    let s12 = r#"del set" : ["all_minus_euro1k"], "error message" : "", "contact emails" : [""#;
    let s13 = r#"rustythecrab@meteomatics.com"]}}"#;
    let s = [s1, s2, s3, s4, s5, s6, s7, s8, s9, s10, s11, s12, s13].concat();

    let json = extract_user_statistics(&s).unwrap();

    // Check if the message was correctly deserialized.
    assert_eq!(
        json.message,
        "In case the limits don't match your understanding of the contract, \
        please contact us (api@meteomatics.com). For other inquiries please \
        write to (support@meteomatics.com). Soft or hard limit values of 0 \
        mean that the corresponding limit is not set."
    );

    // Check if the username was correctly deserialized.
    assert_eq!(json.stats.username, "rustythecrab");

    // Check if the total requests were correctly dersialized using the Limits struct
    assert_eq!(json.stats.total.used, 4280);
    assert_eq!(json.stats.total.soft_lim, 0);
    assert_eq!(json.stats.total.hard_lim, 0);

    // Check if the area request option was correctly deserialized.
    assert!(json.stats.area);

    // Check if the model set was correctly deserialized.
    assert_eq!(json.stats.models[0], "all_minus_euro1k");

    // Check if the contact was correctly deserialized.
    assert_eq!(json.stats.contact[0], "rustythecrab@meteomatics.com");
}

#[test]
fn statistics_decode_reads_every_limit_window() {
    let parts = [
        r#"{"message": "m", "user statistics": {"username": "u", "#,
        r#""requests total": {"used": 1, "soft limit": 2, "hard limit": 3}, "#,
        r#""requests since last UTC midnight": {"used": 4, "soft limit": 5, "hard limit": 6}, "#,
        r#""requests since HH:00:00": {"used": 7, "soft limit": 8, "hard limit": 9}, "#,
        r#""requests in the last 60 seconds": {"used": 10, "soft limit": 11, "hard limit": 12}, "#,
        r#""requests in parallel": {"used": 13, "soft limit": 14, "hard limit": 15}, "#,
        r#""historic request option": "h", "area request option": false, "#,
        r#""model set": ["a", "b"], "error message": "e", "contact emails": []}}"#,
    ];
    let body = parts.concat();
    let json = extract_user_statistics(&body).unwrap();
    assert_eq!(json.stats.since_midnight.used, 4);
    assert_eq!(json.stats.since_0.soft_lim, 8);
    assert_eq!(json.stats.since_60s.hard_lim, 12);
    assert_eq!(json.stats.parallel.soft_lim, 14);
    assert_eq!(json.stats.hist, "h");
    assert!(!json.stats.area);
    assert_eq!(json.stats.models, vec!["a", "b"]);
    assert_eq!(json.stats.error, "e");
    assert!(json.stats.contact.is_empty());
}

#[test]
fn malformed_statistics_are_a_decode_error() {
    let res = extract_user_statistics("{not json");
    assert!(matches!(res, Err(ConnectorError::DecodeError(_))));

    let res = extract_user_statistics(r#"{"message": "m"}"#);
    assert!(matches!(res, Err(ConnectorError::DecodeError(_))));

    let res = extract_user_statistics(
        r#"{"message": "m", "user statistics": {"username": 7}}"#,
    );
    assert!(matches!(res, Err(ConnectorError::DecodeError(_))));
}

#[test]
fn statistics_response_checks_the_status_first() {
    let res = process_user_features_response(403, "forbidden");
    assert!(matches!(res, Err(ConnectorError::HttpError(403, b)) if b == "forbidden"));
    let res = process_user_features_response(200, "{broken");
    assert!(matches!(res, Err(ConnectorError::DecodeError(_))));
}

#[test]
fn urls_join_against_the_fixed_endpoint() {
    let url = build_url("status").unwrap();
    assert_eq!(url, "https://api.meteomatics.com/status");

    let url = build_url("2022-05-17T12:00:00.000Z/t_2m:C/51.5073219,-0.1276474/csv").unwrap();
    assert_eq!(
        url,
        "https://api.meteomatics.com/2022-05-17T12:00:00.000Z/t_2m:C/51.5073219,-0.1276474/csv"
    );

    let res = build_url_on("not a base url", "x");
    assert_eq!(res, Err(ConnectorError::ParseError));
}

#[test]
fn client_holds_its_configuration() {
    let client = APIClient::new("test_user", "test_password", 10);
    assert_eq!(client.username, "test_user");
    assert_eq!(client.password, "test_password");
    assert_eq!(client.timeout_seconds, 10);
    assert_eq!(client.base_url, "https://api.meteomatics.com");
}

#[test]
fn response_body_collects_headers_and_table() {
    let mut body = ResponseBody::new();
    body.add_header(String::from("validdate"));
    body.add_header(String::from("t_2m:C"));
    assert_eq!(body.response_header, vec!["validdate", "t_2m:C"]);
    let table = ResponseTable {
        headers: vec![String::from("validdate"), String::from("t_2m:C")],
        rows: vec![vec![String::from("1989-11-09T18:00:00Z"), String::from("6.8")]],
    };
    body.add_dataframe(table.clone());
    assert_eq!(body.response_df, table);
}
