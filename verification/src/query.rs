//! Assembly of the URL fragment for each request shape. All four generic
//! shapes share `time/parameters/location/format`, with the modifier list
//! appended as a query string only when it has entries; the lightning and
//! route shapes have fixed grammars of their own.
use vstd::prelude::*;
use crate::text::seq_join;
use crate::time::{rfc3339_render, time_series_render, DateTimeUtc, TimeSeries};

verus! {

/// The view of an optional list of rendered modifiers.
pub open spec fn opts_view(o: Option<Vec<String>>) -> Option<Seq<Seq<char>>> {
    match o {
        None => None,
        Some(v) => Some(v.deep_view()),
    }
}

/// Whether a modifier list contributes nothing to a fragment.
pub open spec fn opts_absent(o: Option<Seq<Seq<char>>>) -> bool {
    match o {
        None => true,
        Some(v) => v.len() == 0,
    }
}

/// The tail a modifier list appends to a fragment: nothing when the list is
/// missing or empty, else a question mark and the entries joined with `&`.
pub open spec fn opt_suffix(o: Option<Seq<Seq<char>>>) -> Seq<char> {
    match o {
        None => seq![],
        Some(v) => if v.len() == 0 {
            seq![]
        } else {
            seq!['?'] + seq_join(v, seq!['&'])
        },
    }
}

/// Appends the modifier tail of `optionals` to `res`.
fn append_optionals(res: &mut String, optionals: &Option<Vec<String>>)
    ensures
        final(res)@ == old(res)@ + opt_suffix(opts_view(*optionals)),
{
    proof {
        reveal_strlit("?");
    }
    match optionals {
        None => {
            assert(res@ =~= old(res)@ + opt_suffix(opts_view(*optionals)));
        },
        Some(list) => {
            if list.len() > 0 {
                res.append("?");
                let joined = crate::text::join_strings(list, "&");
                res.append(joined.as_str());
                proof {
                    reveal_strlit("&");
                    assert("&"@ =~= seq!['&']);
                    assert(res@ =~= old(res)@ + opt_suffix(opts_view(*optionals)));
                }
            } else {
                assert(list.deep_view().len() == 0);
                assert(res@ =~= old(res)@ + opt_suffix(opts_view(*optionals)));
            }
        },
    }
}

/// The fragment of a stepped time-series query:
/// `start--end:step/parameters/location/format`, then the modifier tail.
pub open spec fn ts_query_render(ts: TimeSeries, params: Seq<Seq<char>>, coords: Seq<char>,
    opts: Option<Seq<Seq<char>>>, format: Seq<char>) -> Seq<char> {
    time_series_render(ts) + seq!['/'] + seq_join(params, seq![',']) + seq!['/'] + coords
        + seq!['/'] + format + opt_suffix(opts)
}

/// Builds the fragment for a time-series query over one or more locations.
/// An empty or missing modifier list leaves the fragment without any `?`
/// tail.
pub fn build_ts_query_specs(time_series: &TimeSeries, parameters: &Vec<String>, coords_str: &str,
    optionals: &Option<Vec<String>>, format: &str) -> (res: String)
    requires
        time_series.valid(),
        time_series.timedelta is Some,
    ensures
        res@ == ts_query_render(*time_series, parameters.deep_view(), coords_str@, opts_view(
            *optionals), format@),
        opts_absent(opts_view(*optionals)) ==> res@ == time_series_render(*time_series)
            + seq!['/'] + seq_join(parameters.deep_view(), seq![',']) + seq!['/'] + coords_str@
            + seq!['/'] + format@,
{
    proof {
        reveal_strlit("/");
        reveal_strlit(",");
        assert(","@ =~= seq![',']);
    }
    let mut res = time_series.as_string();
    res.append("/");
    let params = crate::text::join_strings(parameters, ",");
    res.append(params.as_str());
    res.append("/");
    res.append(coords_str);
    res.append("/");
    res.append(format);
    append_optionals(&mut res, optionals);
    assert(res@ =~= ts_query_render(*time_series, parameters.deep_view(), coords_str@, opts_view(
        *optionals), format@));
    res
}

/// The fragment of a single-instant query:
/// `instant/parameter/location/format`, then the modifier tail.
pub open spec fn grid_query_render(timestamp: DateTimeUtc, parameter: Seq<char>,
    coords: Seq<char>, opts: Option<Seq<Seq<char>>>, format: Seq<char>) -> Seq<char> {
    rfc3339_render(timestamp) + seq!['/'] + parameter + seq!['/'] + coords + seq!['/'] + format
        + opt_suffix(opts)
}

/// Builds the fragment for a single-instant query over a grid or a point.
pub fn build_grid_query_specs(timestamp: &DateTimeUtc, parameter: &str, coords_str: &str,
    optionals: &Option<Vec<String>>, format: &str) -> (res: String)
    requires
        timestamp.valid(),
    ensures
        res@ == grid_query_render(*timestamp, parameter@, coords_str@, opts_view(*optionals),
            format@),
{
    proof {
        reveal_strlit("/");
    }
    let mut res = timestamp.to_rfc3339();
    res.append("/");
    res.append(parameter);
    res.append("/");
    res.append(coords_str);
    res.append("/");
    res.append(format);
    append_optionals(&mut res, optionals);
    assert(res@ =~= grid_query_render(*timestamp, parameter@, coords_str@, opts_view(*optionals),
        format@));
    res
}

/// The fragment of a stepped grid query:
/// `start--end:step/parameter/location/format`, then the modifier tail.
pub open spec fn grid_ts_query_render(ts: TimeSeries, parameter: Seq<char>, coords: Seq<char>,
    format: Seq<char>, opts: Option<Seq<Seq<char>>>) -> Seq<char> {
    time_series_render(ts) + seq!['/'] + parameter + seq!['/'] + coords + seq!['/'] + format
        + opt_suffix(opts)
}

/// Builds the fragment for a time-series query of a single parameter over a
/// grid.
pub fn build_grid_ts_query_specs(time_series: &TimeSeries, parameter: &str, coords_str: &str,
    format: &str, optionals: &Option<Vec<String>>) -> (res: String)
    requires
        time_series.valid(),
        time_series.timedelta is Some,
    ensures
        res@ == grid_ts_query_render(*time_series, parameter@, coords_str@, format@, opts_view(
            *optionals)),
{
    proof {
        reveal_strlit("/");
    }
    let mut res = time_series.as_string();
    res.append("/");
    res.append(parameter);
    res.append("/");
    res.append(coords_str);
    res.append("/");
    res.append(format);
    append_optionals(&mut res, optionals);
    assert(res@ =~= grid_ts_query_render(*time_series, parameter@, coords_str@, format@,
        opts_view(*optionals)));
    res
}

/// The fixed fragment of a lightning-report query; only the start and end of
/// the series appear, never a step.
pub open spec fn lightning_query_render(ts: TimeSeries, coords: Seq<char>) -> Seq<char> {
    "get_lightning_list?time_range="@ + rfc3339_render(ts.start) + seq!['-', '-']
        + rfc3339_render(ts.end) + "&bounding_box="@ + coords + "&format=csv"@
}

/// Builds the fragment for a lightning report over an area and a time range.
pub fn build_grid_ts_lightning_query_specs(time_series: &TimeSeries, coords_str: &str) -> (res:
    String)
    requires
        time_series.valid(),
    ensures
        res@ == lightning_query_render(*time_series, coords_str@),
{
    proof {
        reveal_strlit("get_lightning_list?time_range=");
        reveal_strlit("--");
        reveal_strlit("&bounding_box=");
        reveal_strlit("&format=csv");
    }
    let mut res = String::from_str("get_lightning_list?time_range=");
    let part = time_series.start.to_rfc3339();
    res.append(part.as_str());
    res.append("--");
    let part = time_series.end.to_rfc3339();
    res.append(part.as_str());
    res.append("&bounding_box=");
    res.append(coords_str);
    res.append("&format=csv");
    assert(res@ =~= lightning_query_render(*time_series, coords_str@));
    res
}

/// The fixed fragment of a route query: dates, parameters and locations are
/// zipped positionally by the server, and the format is always CSV.
pub open spec fn route_query_render(dates: Seq<char>, parameters: Seq<char>,
    coords: Seq<char>) -> Seq<char> {
    dates + seq!['/'] + parameters + seq!['/'] + coords + "/csv?route=true"@
}

/// Builds the fragment for a route query from already rendered date,
/// parameter and location lists.
pub fn build_route_query_specs(dates: &str, parameters: &str, coords_str: &str) -> (res: String)
    ensures
        res@ == route_query_render(dates@, parameters@, coords_str@),
{
    proof {
        reveal_strlit("/");
        reveal_strlit("/csv?route=true");
    }
    let mut res = String::from_str(dates);
    res.append("/");
    res.append(parameters);
    res.append("/");
    res.append(coords_str);
    res.append("/csv?route=true");
    assert(res@ =~= route_query_render(dates@, parameters@, coords_str@));
    res
}

/// Renders a list of instants joined with commas, the date list of a route
/// query.
pub fn dates_to_str(dates: &Vec<DateTimeUtc>) -> (res: String)
    requires
        forall|i: int| 0 <= i < dates@.len() ==> dates@[i].valid(),
    ensures
        res@ == seq_join(dates@.map_values(|d: DateTimeUtc| rfc3339_render(d)), seq![',']),
{
    let ghost target = dates@.map_values(|d: DateTimeUtc| rfc3339_render(d));
    let mut rendered: Vec<String> = Vec::new();
    for i in 0..dates.len()
        invariant
            forall|j: int| 0 <= j < dates@.len() ==> dates@[j].valid(),
            rendered.deep_view() == dates@.take(i as int).map_values(
                |d: DateTimeUtc| rfc3339_render(d)),
    {
        let ghost old_dv = rendered.deep_view();
        rendered.push(dates[i].to_rfc3339());
        proof {
            assert(rendered.deep_view() =~= old_dv + seq![rfc3339_render(dates@[i as int])]);
            assert(rendered.deep_view() =~= dates@.take(i + 1).map_values(
                |d: DateTimeUtc| rfc3339_render(d)));
        }
    }
    assert(dates@.take(dates.len() as int) =~= dates@);
    let res = crate::text::join_strings(&rendered, ",");
    proof {
        reveal_strlit(",");
        assert(","@ =~= seq![',']);
    }
    res
}

} // verus!
