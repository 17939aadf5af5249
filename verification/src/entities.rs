//! The assembled answer of one query: the decoded table beside the header
//! names the caller asked for, and the HTTP status it came with.
use vstd::prelude::*;
use crate::table::ResponseTable;

verus! {

/// The body of a decoded response: the header names the caller expects, in
/// request order, and the decoded table.
#[derive(Clone, Debug, PartialEq)]
pub struct ResponseBody {
    pub response_header: Vec<String>,
    pub response_df: ResponseTable,
}

impl ResponseBody {
    /// An empty body: no headers, no table.
    pub fn new() -> (res: ResponseBody)
        ensures
            res.response_header@.len() == 0,
            res.response_df.headers@.len() == 0,
            res.response_df.rows@.len() == 0,
    {
        ResponseBody {
            response_header: Vec::new(),
            response_df: ResponseTable { headers: Vec::new(), rows: Vec::new() },
        }
    }

    /// Appends one expected header name.
    pub fn add_header(&mut self, header: String)
        ensures
            final(self).response_header@ == old(self).response_header@.push(header),
            final(self).response_df == old(self).response_df,
    {
        self.response_header.push(header);
    }

    /// Replaces the held table with a decoded one.
    pub fn add_dataframe(&mut self, df: ResponseTable)
        ensures
            final(self).response_df == df,
            final(self).response_header == old(self).response_header,
    {
        self.response_df = df;
    }
}

/// A decoded response together with the status it arrived under.
#[derive(Clone, Debug, PartialEq)]
pub struct ConnectorResponse {
    pub response_body: ResponseBody,
    pub http_status_code: String,
    pub http_status_message: String,
}

} // verus!
