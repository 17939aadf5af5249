//! The user-statistics endpoint: its response is JSON, not delimited text,
//! and decodes into a nested record of account counters, limits and
//! entitlements. Each field lookup in the JSON document is a function of
//! the body text and the key path alone, so every lookup carries a name,
//! the trusted wrappers are bound to those names, and the decode is exact
//! relative to them: it succeeds exactly when every lookup succeeds and
//! fits, and every decoded field equals its lookup.
use vstd::prelude::*;
use crate::errors::ConnectorError;

verus! {

/// What looking a string field up at the document root yields: the text of
/// the field `k1` when the body is a JSON object carrying a string there.
pub uninterp spec fn json_text_at1(body: Seq<char>, k1: Seq<char>) -> Option<Seq<char>>;

/// What looking a string field up one level down yields: the text at the
/// path `k1.k2`.
pub uninterp spec fn json_text_at2(body: Seq<char>, k1: Seq<char>, k2: Seq<char>) -> Option<
    Seq<char>,
>;

/// What looking a boolean field up at the path `k1.k2` yields.
pub uninterp spec fn json_flag_at2(body: Seq<char>, k1: Seq<char>, k2: Seq<char>) -> Option<bool>;

/// What looking a non-negative whole number up at the path `k1.k2.k3`
/// yields.
pub uninterp spec fn json_count_at3(body: Seq<char>, k1: Seq<char>, k2: Seq<char>,
    k3: Seq<char>) -> Option<u64>;

/// What looking an array of strings up at the path `k1.k2` yields: the
/// texts in array order, or nothing when the field is missing, no array,
/// or holds a non-string.
pub uninterp spec fn json_texts_at2(body: Seq<char>, k1: Seq<char>, k2: Seq<char>) -> Option<
    Seq<Seq<char>>,
>;

/// Relies on serde_json::from_str, Value::get and Value::as_str: reads the
/// string field `k1` of the document; a function of the texts alone, bound
/// to the name `json_text_at1`.
#[verifier::external_body]
fn json_text_lookup1(body: &str, k1: &str) -> (res: Option<String>)
    ensures
        res is Some <==> json_text_at1(body@, k1@) is Some,
        res matches Some(s) ==> json_text_at1(body@, k1@) == Some(s@),
{
    let root: serde_json::Value = serde_json::from_str(body).ok()?;
    Some(root.get(k1)?.as_str()?.to_string())
}

/// Relies on serde_json::from_str, Value::get and Value::as_str: reads the
/// string field at the path `k1.k2`; bound to the name `json_text_at2`.
#[verifier::external_body]
fn json_text_lookup2(body: &str, k1: &str, k2: &str) -> (res: Option<String>)
    ensures
        res is Some <==> json_text_at2(body@, k1@, k2@) is Some,
        res matches Some(s) ==> json_text_at2(body@, k1@, k2@) == Some(s@),
{
    let root: serde_json::Value = serde_json::from_str(body).ok()?;
    Some(root.get(k1)?.get(k2)?.as_str()?.to_string())
}

/// Relies on serde_json::from_str, Value::get and Value::as_bool: reads
/// the boolean field at the path `k1.k2`; bound to the name
/// `json_flag_at2`.
#[verifier::external_body]
fn json_flag_lookup2(body: &str, k1: &str, k2: &str) -> (res: Option<bool>)
    ensures
        res == json_flag_at2(body@, k1@, k2@),
{
    let root: serde_json::Value = serde_json::from_str(body).ok()?;
    root.get(k1)?.get(k2)?.as_bool()
}

/// Relies on serde_json::from_str, Value::get and Value::as_u64: reads the
/// whole-number field at the path `k1.k2.k3`; bound to the name
/// `json_count_at3`.
#[verifier::external_body]
fn json_count_lookup3(body: &str, k1: &str, k2: &str, k3: &str) -> (res: Option<u64>)
    ensures
        res == json_count_at3(body@, k1@, k2@, k3@),
{
    let root: serde_json::Value = serde_json::from_str(body).ok()?;
    root.get(k1)?.get(k2)?.get(k3)?.as_u64()
}

/// Relies on serde_json::from_str, Value::get, Value::as_array and
/// Value::as_str: reads the string-array field at the path `k1.k2`, each
/// element converted to its text; bound to the name `json_texts_at2`.
#[verifier::external_body]
fn json_texts_lookup2(body: &str, k1: &str, k2: &str) -> (res: Option<Vec<String>>)
    ensures
        res is Some <==> json_texts_at2(body@, k1@, k2@) is Some,
        res matches Some(v) ==> json_texts_at2(body@, k1@, k2@) == Some(v.deep_view()),
{
    let root: serde_json::Value = serde_json::from_str(body).ok()?;
    let items = root.get(k1)?.get(k2)?.as_array()?;
    items.iter().map(|v| v.as_str().map(|s| s.to_string())).collect()
}

/// One request counter of the account with its two quota bounds; a bound of
/// zero means the bound is not set.
#[derive(Clone, Copy, Debug, PartialEq, Eq, Structural)]
pub struct Limit {
    pub used: u32,
    pub soft_lim: u32,
    pub hard_lim: u32,
}

/// The account counters, quotas and entitlements of the statistics
/// response.
#[derive(Clone, Debug, PartialEq)]
pub struct UserStats {
    pub username: String,
    pub total: Limit,
    pub since_midnight: Limit,
    pub since_0: Limit,
    pub since_60s: Limit,
    pub parallel: Limit,
    pub hist: String,
    pub area: bool,
    pub models: Vec<String>,
    pub error: String,
    pub contact: Vec<String>,
}

/// The whole statistics response: a human-readable message beside the
/// statistics record.
#[derive(Clone, Debug, PartialEq)]
pub struct UStatsResponse {
    pub message: String,
    pub stats: UserStats,
}

/// The key of the statistics record inside the document.
pub open spec fn stats_key() -> Seq<char> {
    "user statistics"@
}

/// One counter lookup of a limit record.
pub open spec fn limit_lookup(body: Seq<char>, record: Seq<char>, field: Seq<char>) -> Option<
    u64,
> {
    json_count_at3(body, stats_key(), record, field)
}

/// All three counters of the limit record `record` are present and fit an
/// unsigned 32-bit value.
pub open spec fn limit_lookup_ok(body: Seq<char>, record: Seq<char>) -> bool {
    &&& limit_lookup(body, record, "used"@) matches Some(u) && u <= u32::MAX
    &&& limit_lookup(body, record, "soft limit"@) matches Some(s) && s <= u32::MAX
    &&& limit_lookup(body, record, "hard limit"@) matches Some(h) && h <= u32::MAX
}

/// The limit `l` holds exactly the three counters of the record `record`.
pub open spec fn limit_matches(l: Limit, body: Seq<char>, record: Seq<char>) -> bool {
    &&& limit_lookup(body, record, "used"@) == Some(l.used as u64)
    &&& limit_lookup(body, record, "soft limit"@) == Some(l.soft_lim as u64)
    &&& limit_lookup(body, record, "hard limit"@) == Some(l.hard_lim as u64)
}

/// Every field of the statistics document is present, of the right shape,
/// and every counter fits an unsigned 32-bit value.
pub open spec fn stats_decode_ok(body: Seq<char>) -> bool {
    &&& json_text_at1(body, "message"@) is Some
    &&& json_text_at2(body, stats_key(), "username"@) is Some
    &&& limit_lookup_ok(body, "requests total"@)
    &&& limit_lookup_ok(body, "requests since last UTC midnight"@)
    &&& limit_lookup_ok(body, "requests since HH:00:00"@)
    &&& limit_lookup_ok(body, "requests in the last 60 seconds"@)
    &&& limit_lookup_ok(body, "requests in parallel"@)
    &&& json_text_at2(body, stats_key(), "historic request option"@) is Some
    &&& json_flag_at2(body, stats_key(), "area request option"@) is Some
    &&& json_texts_at2(body, stats_key(), "model set"@) is Some
    &&& json_text_at2(body, stats_key(), "error message"@) is Some
    &&& json_texts_at2(body, stats_key(), "contact emails"@) is Some
}

/// Every field of `u` equals its lookup in the document.
pub open spec fn stats_matches(u: UStatsResponse, body: Seq<char>) -> bool {
    &&& json_text_at1(body, "message"@) == Some(u.message@)
    &&& json_text_at2(body, stats_key(), "username"@) == Some(u.stats.username@)
    &&& limit_matches(u.stats.total, body, "requests total"@)
    &&& limit_matches(u.stats.since_midnight, body, "requests since last UTC midnight"@)
    &&& limit_matches(u.stats.since_0, body, "requests since HH:00:00"@)
    &&& limit_matches(u.stats.since_60s, body, "requests in the last 60 seconds"@)
    &&& limit_matches(u.stats.parallel, body, "requests in parallel"@)
    &&& json_text_at2(body, stats_key(), "historic request option"@) == Some(u.stats.hist@)
    &&& json_flag_at2(body, stats_key(), "area request option"@) == Some(u.stats.area)
    &&& json_texts_at2(body, stats_key(), "model set"@) == Some(u.stats.models.deep_view())
    &&& json_text_at2(body, stats_key(), "error message"@) == Some(u.stats.error@)
    &&& json_texts_at2(body, stats_key(), "contact emails"@) == Some(u.stats.contact.deep_view())
}

/// A decode failure naming the field that was missing or of the wrong
/// shape.
fn missing(what: &str) -> (res: ConnectorError)
    ensures
        res is DecodeError,
{
    ConnectorError::DecodeError(String::from_str(what))
}

/// Reads one limit record: the three counters under `record` in the
/// statistics record, each a number that fits an unsigned 32-bit value.
fn extract_limit(body: &str, record: &str) -> (res: Result<Limit, ConnectorError>)
    ensures
        res is Ok <==> limit_lookup_ok(body@, record@),
        res matches Ok(l) ==> limit_matches(l, body@, record@),
        res is Err ==> res matches Err(ConnectorError::DecodeError(_)),
{
    let used = match json_count_lookup3(body, "user statistics", record, "used") {
        Some(x) => x,
        None => {
            return Err(missing("a used counter is missing or no number"));
        },
    };
    let soft = match json_count_lookup3(body, "user statistics", record, "soft limit") {
        Some(x) => x,
        None => {
            return Err(missing("a soft limit is missing or no number"));
        },
    };
    let hard = match json_count_lookup3(body, "user statistics", record, "hard limit") {
        Some(x) => x,
        None => {
            return Err(missing("a hard limit is missing or no number"));
        },
    };
    if used > u32::MAX as u64 || soft > u32::MAX as u64 || hard > u32::MAX as u64 {
        return Err(missing("a limit value is too large"));
    }
    Ok(Limit { used: used as u32, soft_lim: soft as u32, hard_lim: hard as u32 })
}

/// Decodes the statistics document: the top-level message, then every
/// field of the nested statistics record. The decode succeeds exactly when
/// every field lookup succeeds and every counter fits, every decoded field
/// equals its lookup, and anything else is a decode error; nothing is
/// filled with defaults.
pub fn extract_user_statistics(body: &str) -> (res: Result<UStatsResponse, ConnectorError>)
    ensures
        res is Ok <==> stats_decode_ok(body@),
        res matches Ok(u) ==> stats_matches(u, body@),
        res is Err ==> res matches Err(ConnectorError::DecodeError(_)),
{
    let message = match json_text_lookup1(body, "message") {
        Some(s) => s,
        None => {
            return Err(missing("the message is missing or no string"));
        },
    };
    let username = match json_text_lookup2(body, "user statistics", "username") {
        Some(s) => s,
        None => {
            return Err(missing("the username is missing or no string"));
        },
    };
    let total = match extract_limit(body, "requests total") {
        Ok(l) => l,
        Err(e) => {
            return Err(e);
        },
    };
    let since_midnight = match extract_limit(body, "requests since last UTC midnight") {
        Ok(l) => l,
        Err(e) => {
            return Err(e);
        },
    };
    let since_0 = match extract_limit(body, "requests since HH:00:00") {
        Ok(l) => l,
        Err(e) => {
            return Err(e);
        },
    };
    let since_60s = match extract_limit(body, "requests in the last 60 seconds") {
        Ok(l) => l,
        Err(e) => {
            return Err(e);
        },
    };
    let parallel = match extract_limit(body, "requests in parallel") {
        Ok(l) => l,
        Err(e) => {
            return Err(e);
        },
    };
    let hist = match json_text_lookup2(body, "user statistics", "historic request option") {
        Some(s) => s,
        None => {
            return Err(missing("the historic option is missing or no string"));
        },
    };
    let area = match json_flag_lookup2(body, "user statistics", "area request option") {
        Some(b) => b,
        None => {
            return Err(missing("the area option is missing or no boolean"));
        },
    };
    let models = match json_texts_lookup2(body, "user statistics", "model set") {
        Some(l) => l,
        None => {
            return Err(missing("the model set is missing or no string array"));
        },
    };
    let error = match json_text_lookup2(body, "user statistics", "error message") {
        Some(s) => s,
        None => {
            return Err(missing("the error message is missing or no string"));
        },
    };
    let contact = match json_texts_lookup2(body, "user statistics", "contact emails") {
        Some(l) => l,
        None => {
            return Err(missing("the contact emails are missing or no string array"));
        },
    };
    Ok(UStatsResponse {
        message,
        stats: UserStats {
            username,
            total,
            since_midnight,
            since_0,
            since_60s,
            parallel,
            hist,
            area,
            models,
            error,
            contact,
        },
    })
}

/// Decodes a user-statistics response: a status other than 200 is the HTTP
/// error with the raw body; a 200 body decodes exactly when every field of
/// the statistics document is in place, into exactly those fields.
pub fn process_user_features_response(status: u16, body: &str) -> (res: Result<UStatsResponse,
    ConnectorError>)
    ensures
        status != 200 ==> (res matches Err(ConnectorError::HttpError(c, b)) && c == status && b@
            == body@),
        status == 200 ==> (res is Ok <==> stats_decode_ok(body@)),
        status == 200 ==> (res matches Ok(u) ==> stats_matches(u, body@)),
        status == 200 && res is Err ==> res matches Err(ConnectorError::DecodeError(_)),
{
    match crate::response::check_http_status(status, body) {
        Err(e) => Err(e),
        Ok(()) => extract_user_statistics(body),
    }
}

} // verus!
