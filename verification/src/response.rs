//! Turning an HTTP status and body into the caller's result, one function
//! per request shape. A status other than 200 is surfaced as an HTTP error
//! carrying the code and the raw body, and the body is never decoded; a 200
//! body is decoded by the rules of its shape.
use vstd::prelude::*;
use crate::errors::ConnectorError;
use crate::location::Point;
use crate::table::{csv_headers, csv_ok, csv_rows, df_add_latlon, df_add_postal,
    has_lightning_columns, lat_label, lightning_renamed, lon_label, parse_grid_response_to_df,
    parse_response_to_df, station_label, ResponseTable};

verus! {

/// Accepts a 200 status and turns any other into the HTTP error that
/// carries the status code and the raw body text.
pub fn check_http_status(status: u16, body: &str) -> (res: Result<(), ConnectorError>)
    ensures
        res is Ok <==> status == 200,
        status != 200 ==> (res matches Err(ConnectorError::HttpError(c, b)) && c == status && b@
            == body@),
{
    if status == 200 {
        Ok(())
    } else {
        Err(ConnectorError::HttpError(status, String::from_str(body)))
    }
}

/// Decodes a point time-series response. A single requested point gets the
/// `lat` and `lon` columns the server omitted put back in front, filled
/// with that point's coordinates on every row; several points decode as
/// they came.
pub fn process_time_series_response(status: u16, body: &str, coordinates: &Vec<Point>) -> (res:
    Result<ResponseTable, ConnectorError>)
    ensures
        status != 200 ==> (res matches Err(ConnectorError::HttpError(c, b)) && c == status && b@
            == body@),
        status == 200 ==> (res is Ok <==> csv_ok(body@, 0)),
        status == 200 && !csv_ok(body@, 0) ==> res matches Err(ConnectorError::DecodeError(_)),
        status == 200 && csv_ok(body@, 0) && coordinates@.len() == 1 ==> (res matches Ok(t) && {
            &&& t.headers.deep_view() == seq![lat_label(), lon_label()] + csv_headers(body@, 0)
            &&& t.rows.deep_view() == csv_rows(body@, 0).map_values(
                |r: Seq<Seq<char>>| seq![coordinates@[0].lat@, coordinates@[0].lon@] + r)
            &&& t.wf()
        }),
        status == 200 && csv_ok(body@, 0) && coordinates@.len() != 1 ==> (res matches Ok(t) && {
            &&& t.headers.deep_view() == csv_headers(body@, 0)
            &&& t.rows.deep_view() == csv_rows(body@, 0)
            &&& t.wf()
        }),
{
    match check_http_status(status, body) {
        Err(e) => Err(e),
        Ok(()) => {
            let parsed = parse_response_to_df(body);
            match parsed {
                Err(e) => Err(e),
                Ok(table) => {
                    if coordinates.len() == 1 {
                        Ok(df_add_latlon(&table, &coordinates[0]))
                    } else {
                        Ok(table)
                    }
                },
            }
        },
    }
}

/// Decodes a postal-code time-series response. A single requested code gets
/// the `station_id` column the server omitted put back in front, filled
/// with that code on every row; several codes decode as they came.
pub fn process_time_series_postal_response(status: u16, body: &str, postals: &Vec<String>) -> (
    res: Result<ResponseTable, ConnectorError>)
    ensures
        status != 200 ==> (res matches Err(ConnectorError::HttpError(c, b)) && c == status && b@
            == body@),
        status == 200 ==> (res is Ok <==> csv_ok(body@, 0)),
        status == 200 && !csv_ok(body@, 0) ==> res matches Err(ConnectorError::DecodeError(_)),
        status == 200 && csv_ok(body@, 0) && postals@.len() == 1 ==> (res matches Ok(t) && {
            &&& t.headers.deep_view() == seq![station_label()] + csv_headers(body@, 0)
            &&& t.rows.deep_view() == csv_rows(body@, 0).map_values(
                |r: Seq<Seq<char>>| seq![postals@[0]@] + r)
            &&& t.wf()
        }),
        status == 200 && csv_ok(body@, 0) && postals@.len() != 1 ==> (res matches Ok(t) && {
            &&& t.headers.deep_view() == csv_headers(body@, 0)
            &&& t.rows.deep_view() == csv_rows(body@, 0)
            &&& t.wf()
        }),
{
    match check_http_status(status, body) {
        Err(e) => Err(e),
        Ok(()) => {
            let parsed = parse_response_to_df(body);
            match parsed {
                Err(e) => Err(e),
                Ok(table) => {
                    if postals.len() == 1 {
                        Ok(df_add_postal(&table, postals[0].as_str()))
                    } else {
                        Ok(table)
                    }
                },
            }
        },
    }
}

/// Decodes a pivoted-grid response: the real header stands behind exactly
/// two metadata lines, which are skipped, never parsed.
pub fn process_grid_pivoted_response(status: u16, body: &str) -> (res: Result<ResponseTable,
    ConnectorError>)
    ensures
        status != 200 ==> (res matches Err(ConnectorError::HttpError(c, b)) && c == status && b@
            == body@),
        status == 200 ==> (res is Ok <==> csv_ok(body@, 2)),
        status == 200 && !csv_ok(body@, 2) ==> res matches Err(ConnectorError::DecodeError(_)),
        status == 200 && csv_ok(body@, 2) ==> (res matches Ok(t) && {
            &&& t.headers.deep_view() == csv_headers(body@, 2)
            &&& t.rows.deep_view() == csv_rows(body@, 2)
            &&& t.wf()
        }),
{
    match check_http_status(status, body) {
        Err(e) => Err(e),
        Ok(()) => parse_grid_response_to_df(body),
    }
}

/// Decodes an unpivoted grid or grid-time-series response: a tidy table,
/// header first.
pub fn process_grid_unpivoted_response(status: u16, body: &str) -> (res: Result<ResponseTable,
    ConnectorError>)
    ensures
        status != 200 ==> (res matches Err(ConnectorError::HttpError(c, b)) && c == status && b@
            == body@),
        status == 200 ==> (res is Ok <==> csv_ok(body@, 0)),
        status == 200 && !csv_ok(body@, 0) ==> res matches Err(ConnectorError::DecodeError(_)),
        status == 200 && csv_ok(body@, 0) ==> (res matches Ok(t) && {
            &&& t.headers.deep_view() == csv_headers(body@, 0)
            &&& t.rows.deep_view() == csv_rows(body@, 0)
            &&& t.wf()
        }),
{
    match check_http_status(status, body) {
        Err(e) => Err(e),
        Ok(()) => parse_response_to_df(body),
    }
}

/// Decodes a route response: a tidy table, header first.
pub fn process_route_response(status: u16, body: &str) -> (res: Result<ResponseTable,
    ConnectorError>)
    ensures
        status != 200 ==> (res matches Err(ConnectorError::HttpError(c, b)) && c == status && b@
            == body@),
        status == 200 ==> (res is Ok <==> csv_ok(body@, 0)),
        status == 200 && !csv_ok(body@, 0) ==> res matches Err(ConnectorError::DecodeError(_)),
        status == 200 && csv_ok(body@, 0) ==> (res matches Ok(t) && {
            &&& t.headers.deep_view() == csv_headers(body@, 0)
            &&& t.rows.deep_view() == csv_rows(body@, 0)
            &&& t.wf()
        }),
{
    match check_http_status(status, body) {
        Err(e) => Err(e),
        Ok(()) => parse_response_to_df(body),
    }
}

/// Decodes a lightning report: a tidy table whose three lightning-specific
/// columns are renamed to the generic `validdate`, `lat` and `lon`. A table
/// that lacks one of them is a decode error.
pub fn process_lightning_response(status: u16, body: &str) -> (res: Result<ResponseTable,
    ConnectorError>)
    ensures
        status != 200 ==> (res matches Err(ConnectorError::HttpError(c, b)) && c == status && b@
            == body@),
        status == 200 ==> (res is Ok <==> csv_ok(body@, 0) && has_lightning_columns(csv_headers(
            body@, 0))),
        status == 200 && res is Err ==> res matches Err(ConnectorError::DecodeError(_)),
        status == 200 && csv_ok(body@, 0) && has_lightning_columns(csv_headers(body@, 0)) ==> (
        res matches Ok(t) && {
            &&& t.headers.deep_view() == lightning_renamed(csv_headers(body@, 0))
            &&& t.rows.deep_view() == csv_rows(body@, 0)
            &&& t.wf()
        }),
{
    match check_http_status(status, body) {
        Err(e) => Err(e),
        Ok(()) => {
            let parsed = parse_response_to_df(body);
            match parsed {
                Err(e) => Err(e),
                Ok(mut table) => {
                    proof {
                        crate::table::lemma_lightning_labels_distinct();
                    }
                    let ghost hs = csv_headers(body@, 0);
                    let r1 = table.rename("stroke_time:sql", "validdate");
                    if let Err(e) = r1 {
                        proof {
                            assert(!has_lightning_columns(hs));
                        }
                        return Err(e);
                    }
                    let ghost h1 = table.headers.deep_view();
                    let r2 = table.rename("stroke_lat:d", "lat");
                    if let Err(e) = r2 {
                        proof {
                            crate::table::lemma_rename_keeps_other(hs,
                                crate::table::stroke_time_label(),
                                crate::table::validdate_label(),
                                crate::table::stroke_lat_label());
                            assert(!has_lightning_columns(hs));
                        }
                        return Err(e);
                    }
                    let ghost h2 = table.headers.deep_view();
                    let r3 = table.rename("stroke_lon:d", "lon");
                    if let Err(e) = r3 {
                        proof {
                            crate::table::lemma_rename_keeps_other(hs,
                                crate::table::stroke_time_label(),
                                crate::table::validdate_label(),
                                crate::table::stroke_lon_label());
                            crate::table::lemma_rename_keeps_other(h1,
                                crate::table::stroke_lat_label(), crate::table::lat_label(),
                                crate::table::stroke_lon_label());
                            assert(!has_lightning_columns(hs));
                        }
                        return Err(e);
                    }
                    proof {
                        crate::table::lemma_rename_keeps_other(hs,
                            crate::table::stroke_time_label(), crate::table::validdate_label(),
                            crate::table::stroke_lat_label());
                        crate::table::lemma_rename_keeps_other(hs,
                            crate::table::stroke_time_label(), crate::table::validdate_label(),
                            crate::table::stroke_lon_label());
                        crate::table::lemma_rename_keeps_other(h1,
                            crate::table::stroke_lat_label(), crate::table::lat_label(),
                            crate::table::stroke_lon_label());
                        assert(has_lightning_columns(hs));
                        assert(table.headers.deep_view() == lightning_renamed(hs));
                        assert(table.wf());
                    }
                    Ok(table)
                },
            }
        },
    }
}

} // verus!
