//! The decoded form of a delimited-text response: a header row and data
//! rows, all cells kept as text. The parser, the singleton-location column
//! synthesis and the column rename are each proved against a spec-level
//! model of the `;`-delimited grammar.
use vstd::prelude::*;
use crate::errors::ConnectorError;
use crate::text::{split_on, split_str};

verus! {

/// A line with a trailing carriage return loses it; any other line is kept.
pub open spec fn strip_cr(line: Seq<char>) -> Seq<char> {
    if line.len() > 0 && line.last() == '\r' {
        line.drop_last()
    } else {
        line
    }
}

/// Drops empty lines from the end of a line list.
pub open spec fn trim_trailing_blanks(ls: Seq<Seq<char>>) -> Seq<Seq<char>>
    decreases ls.len(),
{
    if ls.len() > 0 && ls.last().len() == 0 {
        trim_trailing_blanks(ls.drop_last())
    } else {
        ls
    }
}

/// The lines of a response body: split at every newline, carriage returns
/// stripped, trailing empty lines dropped.
pub open spec fn lines_of(s: Seq<char>) -> Seq<Seq<char>> {
    trim_trailing_blanks(split_on(s, '\n').map_values(|l: Seq<char>| strip_cr(l)))
}

/// Whether a body parses as a table after skipping `skip` preamble lines: a
/// header line exists there, and every later line has as many `;`-separated
/// cells as the header.
pub open spec fn csv_ok(s: Seq<char>, skip: nat) -> bool {
    let ls = lines_of(s);
    &&& ls.len() > skip
    &&& forall|i: int| skip < i < ls.len() ==> split_on(ls[i], ';').len() == split_on(
        ls[skip as int], ';').len()
}

/// The header cells of a body, after `skip` preamble lines.
pub open spec fn csv_headers(s: Seq<char>, skip: nat) -> Seq<Seq<char>> {
    split_on(lines_of(s)[skip as int], ';')
}

/// The data rows of a body, after `skip` preamble lines and the header.
pub open spec fn csv_rows(s: Seq<char>, skip: nat) -> Seq<Seq<Seq<char>>> {
    lines_of(s).skip(skip as int + 1).map_values(|l: Seq<char>| split_on(l, ';'))
}

/// A decoded response: named columns over rows of text cells. Numeric cells
/// keep their decimal text; nothing is reparsed behind the caller's back.
#[derive(Clone, Debug, PartialEq)]
pub struct ResponseTable {
    pub headers: Vec<String>,
    pub rows: Vec<Vec<String>>,
}

impl ResponseTable {
    /// Every row is as wide as the header row.
    pub open spec fn wf(self) -> bool {
        forall|i: int| 0 <= i < self.rows@.len() ==> (#[trigger] self.rows@[i])@.len()
            == self.headers@.len()
    }
}

/// Splits the cleaned lines out of a body.
fn body_lines(body: &str) -> (res: Vec<String>)
    ensures
        res.deep_view() == lines_of(body@),
{
    let raw = split_str(body, '\n');
    let mut cleaned: Vec<String> = Vec::new();
    for i in 0..raw.len()
        invariant
            raw.deep_view() == split_on(body@, '\n'),
            cleaned.deep_view() == raw.deep_view().take(i as int).map_values(
                |l: Seq<char>| strip_cr(l)),
    {
        let ghost old_dv = cleaned.deep_view();
        let line = &raw[i];
        let n = line.as_str().unicode_len();
        if n > 0 && line.as_str().get_char(n - 1) == '\r' {
            let stripped = line.as_str().substring_char(0, n - 1);
            cleaned.push(String::from_str(stripped));
            proof {
                assert(stripped@ =~= raw.deep_view()[i as int].drop_last());
            }
        } else {
            cleaned.push(line.clone());
        }
        proof {
            assert(cleaned.deep_view() =~= old_dv + seq![strip_cr(raw.deep_view()[i as int])]);
            assert(cleaned.deep_view() =~= raw.deep_view().take(i + 1).map_values(
                |l: Seq<char>| strip_cr(l)));
        }
    }
    assert(raw.deep_view().take(raw.len() as int) =~= raw.deep_view());
    let ghost stripped_all = split_on(body@, '\n').map_values(|l: Seq<char>| strip_cr(l));
    loop
        invariant
            trim_trailing_blanks(cleaned.deep_view()) == trim_trailing_blanks(stripped_all),
        ensures
            cleaned.deep_view() == trim_trailing_blanks(stripped_all),
        decreases cleaned.len(),
    {
        if cleaned.len() == 0 {
            assert(cleaned.deep_view() =~= trim_trailing_blanks(cleaned.deep_view()));
            break;
        }
        let last_len = cleaned[cleaned.len() - 1].as_str().unicode_len();
        if last_len > 0 {
            assert(cleaned.deep_view().last().len() != 0);
            assert(cleaned.deep_view() =~= trim_trailing_blanks(cleaned.deep_view()));
            break;
        }
        let ghost old_dv = cleaned.deep_view();
        cleaned.pop();
        proof {
            assert(cleaned.deep_view() =~= old_dv.drop_last());
            assert(old_dv.last().len() == 0);
            assert(trim_trailing_blanks(old_dv) == trim_trailing_blanks(old_dv.drop_last()));
        }
    }
    cleaned
}

/// Parses a `;`-delimited body into a table after skipping `skip` preamble
/// lines. Returns the table exactly when a header line exists there and all
/// data lines are as wide as the header; any other body is a decode error.
pub fn parse_csv_body(body: &str, skip: usize) -> (res: Result<ResponseTable, ConnectorError>)
    ensures
        res is Ok <==> csv_ok(body@, skip as nat),
        res matches Ok(t) ==> {
            &&& t.headers.deep_view() == csv_headers(body@, skip as nat)
            &&& t.rows.deep_view() == csv_rows(body@, skip as nat)
            &&& t.wf()
        },
        res is Err ==> res matches Err(ConnectorError::DecodeError(_)),
{
    let lines = body_lines(body);
    if lines.len() <= skip {
        return Err(ConnectorError::DecodeError(String::from_str(
            "the body holds no header line where one is expected",
        )));
    }
    let headers = split_str(lines[skip].as_str(), ';');
    let mut rows: Vec<Vec<String>> = Vec::new();
    let ghost ls = lines_of(body@);
    let mut i: usize = skip + 1;
    while i < lines.len()
        invariant
            lines.deep_view() == ls,
            ls == lines_of(body@),
            skip < i <= lines@.len(),
            headers.deep_view() == split_on(ls[skip as int], ';'),
            rows.deep_view() =~= ls.subrange(skip as int + 1, i as int).map_values(
                |l: Seq<char>| split_on(l, ';')),
            forall|j: int| skip < j < i ==> split_on(ls[j], ';').len() == split_on(
                ls[skip as int], ';').len(),
        decreases lines@.len() - i,
    {
        let row = split_str(lines[i].as_str(), ';');
        if row.len() != headers.len() {
            proof {
                assert(ls == lines_of(body@));
                assert(skip < i < lines_of(body@).len());
                assert(split_on(lines_of(body@)[i as int], ';').len() != split_on(lines_of(
                    body@)[skip as int], ';').len());
                assert(!csv_ok(body@, skip as nat));
            }
            return Err(ConnectorError::DecodeError(String::from_str(
                "a data line is not as wide as the header line",
            )));
        }
        let ghost old_dv = rows.deep_view();
        rows.push(row);
        proof {
            assert(rows.deep_view() =~= old_dv + seq![split_on(ls[i as int], ';')]);
            assert(rows.deep_view() =~= ls.subrange(skip as int + 1, i as int + 1).map_values(
                |l: Seq<char>| split_on(l, ';')));
        }
        i = i + 1;
    }
    let res = ResponseTable { headers, rows };
    proof {
        assert(ls.subrange(skip as int + 1, ls.len() as int) =~= ls.skip(skip as int + 1));
        assert(res.rows.deep_view() =~= csv_rows(body@, skip as nat));
        assert forall|j: int| 0 <= j < res.rows@.len() implies (#[trigger] res.rows@[j])@.len()
            == res.headers@.len() by {
            assert(res.rows.deep_view()[j] == split_on(ls[skip as int + 1 + j], ';'));
            assert(split_on(ls[skip as int + 1 + j], ';').len() == split_on(ls[skip as int],
                ';').len());
        }
    }
    Ok(res)
}

/// Decodes a tidy response body: header first, no preamble.
pub fn parse_response_to_df(body: &str) -> (res: Result<ResponseTable, ConnectorError>)
    ensures
        res is Ok <==> csv_ok(body@, 0),
        res matches Ok(t) ==> {
            &&& t.headers.deep_view() == csv_headers(body@, 0)
            &&& t.rows.deep_view() == csv_rows(body@, 0)
            &&& t.wf()
        },
        res is Err ==> res matches Err(ConnectorError::DecodeError(_)),
{
    parse_csv_body(body, 0)
}

/// Decodes a pivoted-grid response body, whose real header sits behind
/// exactly two metadata lines.
pub fn parse_grid_response_to_df(body: &str) -> (res: Result<ResponseTable, ConnectorError>)
    ensures
        res is Ok <==> csv_ok(body@, 2),
        res matches Ok(t) ==> {
            &&& t.headers.deep_view() == csv_headers(body@, 2)
            &&& t.rows.deep_view() == csv_rows(body@, 2)
            &&& t.wf()
        },
        res is Err ==> res matches Err(ConnectorError::DecodeError(_)),
{
    parse_csv_body(body, 2)
}

/// The two column names synthesised for a single-point response.
pub open spec fn lat_label() -> Seq<char> {
    "lat"@
}

pub open spec fn lon_label() -> Seq<char> {
    "lon"@
}

/// The column name synthesised for a single-postal-code response.
pub open spec fn station_label() -> Seq<char> {
    "station_id"@
}

/// A table with one more column at the front, the same value in every row.
pub open spec fn prepend_column(headers: Seq<Seq<char>>, rows: Seq<Seq<Seq<char>>>,
    name: Seq<char>, value: Seq<char>) -> (Seq<Seq<char>>, Seq<Seq<Seq<char>>>) {
    (seq![name] + headers, rows.map_values(|r: Seq<Seq<char>>| seq![value] + r))
}

/// Prepends a constant column to every row of `df_in`.
fn prepend_constant_column(df_in: &ResponseTable, name: &str, value: &str) -> (res: ResponseTable)
    ensures
        res.headers.deep_view() == seq![name@] + df_in.headers.deep_view(),
        res.rows.deep_view() == df_in.rows.deep_view().map_values(
            |r: Seq<Seq<char>>| seq![value@] + r),
        df_in.wf() ==> res.wf(),
{
    let mut headers: Vec<String> = Vec::new();
    headers.push(String::from_str(name));
    let mut k: usize = 0;
    while k < df_in.headers.len()
        invariant
            headers.deep_view() =~= seq![name@] + df_in.headers.deep_view().take(k as int),
            k <= df_in.headers@.len(),
        decreases df_in.headers@.len() - k,
    {
        let ghost old_dv = headers.deep_view();
        headers.push(df_in.headers[k].clone());
        proof {
            assert(headers.deep_view() =~= old_dv + seq![df_in.headers.deep_view()[k as int]]);
        }
        k = k + 1;
    }
    assert(df_in.headers.deep_view().take(df_in.headers@.len() as int) =~= df_in.headers.deep_view());
    let mut rows: Vec<Vec<String>> = Vec::new();
    let ghost target = df_in.rows.deep_view().map_values(|r: Seq<Seq<char>>| seq![value@] + r);
    let mut i: usize = 0;
    while i < df_in.rows.len()
        invariant
            rows.deep_view() =~= target.take(i as int),
            target == df_in.rows.deep_view().map_values(|r: Seq<Seq<char>>| seq![value@] + r),
            i <= df_in.rows@.len(),
            target.len() == df_in.rows@.len(),
        decreases df_in.rows@.len() - i,
    {
        let mut row: Vec<String> = Vec::new();
        row.push(String::from_str(value));
        let mut j: usize = 0;
        while j < df_in.rows[i].len()
            invariant
                0 <= i < df_in.rows@.len(),
                row.deep_view() =~= seq![value@] + df_in.rows.deep_view()[i as int].take(j as int),
                j <= df_in.rows@[i as int]@.len(),
                df_in.rows.deep_view()[i as int].len() == df_in.rows@[i as int]@.len(),
            decreases df_in.rows@[i as int]@.len() - j,
        {
            let ghost old_dv = row.deep_view();
            row.push(df_in.rows[i][j].clone());
            proof {
                assert(row.deep_view() =~= old_dv + seq![df_in.rows.deep_view()[i as int][j as int]]);
            }
            j = j + 1;
        }
        assert(df_in.rows.deep_view()[i as int].take(df_in.rows@[i as int]@.len() as int)
            =~= df_in.rows.deep_view()[i as int]);
        let ghost old_rows_dv = rows.deep_view();
        rows.push(row);
        proof {
            assert(rows.deep_view() =~= old_rows_dv + seq![seq![value@] + df_in.rows.deep_view()[
                i as int]]);
            assert(rows.deep_view() =~= target.take(i + 1));
        }
        i = i + 1;
    }
    assert(target.take(df_in.rows@.len() as int) =~= target);
    let res = ResponseTable { headers, rows };
    assert(df_in.wf() ==> res.wf()) by {
        if df_in.wf() {
            assert forall|i: int| 0 <= i < res.rows@.len() implies (#[trigger] res.rows@[i])@.len()
                == res.headers@.len() by {
                assert(res.rows.deep_view()[i] == seq![value@] + df_in.rows.deep_view()[i]);
                assert(df_in.rows.deep_view()[i].len() == df_in.rows@[i]@.len());
                assert(res.rows.deep_view()[i].len() == res.rows@[i]@.len());
            }
        }
    }
    res
}

/// Prepends constant `lat` and `lon` columns, the coordinates of the single
/// requested point, to a table whose response omitted them.
pub fn df_add_latlon(df_in: &ResponseTable, point: &crate::location::Point) -> (res: ResponseTable)
    ensures
        res.headers.deep_view() == seq![lat_label(), lon_label()] + df_in.headers.deep_view(),
        res.rows.deep_view() == df_in.rows.deep_view().map_values(
            |r: Seq<Seq<char>>| seq![point.lat@, point.lon@] + r),
        df_in.wf() ==> res.wf(),
{
    let with_lon = prepend_constant_column(df_in, "lon", point.lon.as_str());
    let res = prepend_constant_column(&with_lon, "lat", point.lat.as_str());
    proof {
        assert(res.headers.deep_view() =~= seq![lat_label(), lon_label()]
            + df_in.headers.deep_view());
        assert forall|i: int| 0 <= i < df_in.rows.deep_view().len() implies res.rows.deep_view()[i]
            == seq![point.lat@, point.lon@] + df_in.rows.deep_view()[i] by {
            assert(with_lon.rows.deep_view()[i] == seq![point.lon@] + df_in.rows.deep_view()[i]);
            assert(res.rows.deep_view()[i] == seq![point.lat@] + with_lon.rows.deep_view()[i]);
            assert(seq![point.lat@] + (seq![point.lon@] + df_in.rows.deep_view()[i])
                =~= seq![point.lat@, point.lon@] + df_in.rows.deep_view()[i]);
        }
        assert(res.rows.deep_view() =~= df_in.rows.deep_view().map_values(
            |r: Seq<Seq<char>>| seq![point.lat@, point.lon@] + r));
    }
    res
}

/// Prepends a constant `station_id` column, the single requested postal
/// code, to a table whose response omitted it.
pub fn df_add_postal(df_in: &ResponseTable, postal: &str) -> (res: ResponseTable)
    ensures
        res.headers.deep_view() == seq![station_label()] + df_in.headers.deep_view(),
        res.rows.deep_view() == df_in.rows.deep_view().map_values(
            |r: Seq<Seq<char>>| seq![postal@] + r),
        df_in.wf() ==> res.wf(),
{
    prepend_constant_column(df_in, "station_id", postal)
}

/// A header equal to `from` becomes `to`; any other header is kept.
pub open spec fn rename_header(h: Seq<char>, from: Seq<char>, to: Seq<char>) -> Seq<char> {
    if h == from {
        to
    } else {
        h
    }
}

/// The headers of a table after renaming every match of `from` to `to`.
pub open spec fn rename_headers(hs: Seq<Seq<char>>, from: Seq<char>, to: Seq<char>) -> Seq<
    Seq<char>,
> {
    hs.map_values(|h: Seq<char>| rename_header(h, from, to))
}

impl ResponseTable {
    /// Renames the column `from` to `to`; a table without such a column is
    /// left unchanged and reported as an error, as the rename points at a
    /// column the response was expected to carry.
    pub fn rename(&mut self, from: &str, to: &str) -> (res: Result<(), ConnectorError>)
        ensures
            res is Ok <==> old(self).headers.deep_view().contains(from@),
            final(self).headers.deep_view() == rename_headers(old(self).headers.deep_view(),
                from@, to@),
            final(self).rows == old(self).rows,
            res is Err ==> res matches Err(ConnectorError::DecodeError(_)),
    {
        let ghost orig = self.headers.deep_view();
        let from_string = String::from_str(from);
        let mut found = false;
        let mut i: usize = 0;
        while i < self.headers.len()
            invariant
                self.rows == old(self).rows,
                orig == old(self).headers.deep_view(),
                from_string@ == from@,
                i <= self.headers@.len(),
                self.headers@.len() == orig.len(),
                found <==> exists|j: int| 0 <= j < i && orig[j] == from@,
                forall|j: int| i <= j < orig.len() ==> self.headers.deep_view()[j] == orig[j],
                forall|j: int| 0 <= j < i ==> self.headers.deep_view()[j] == rename_header(
                    orig[j], from@, to@),
            decreases self.headers@.len() - i,
        {
            if self.headers[i] == from_string {
                proof {
                    assert(self.headers.deep_view()[i as int] == orig[i as int]);
                    assert(self.headers.deep_view()[i as int] == self.headers@[i as int]@);
                    assert(orig[i as int] == from@);
                }
                let ghost before = self.headers.deep_view();
                self.headers.set(i, String::from_str(to));
                found = true;
                proof {
                    assert(self.headers.deep_view() =~= before.update(i as int, to@));
                    assert(self.headers.deep_view()[i as int] == rename_header(orig[i as int],
                        from@, to@));
                }
            } else {
                proof {
                    assert(self.headers.deep_view()[i as int] == orig[i as int]);
                    assert(self.headers.deep_view()[i as int] == self.headers@[i as int]@);
                    assert(orig[i as int] != from@);
                    assert(self.headers.deep_view()[i as int] == rename_header(orig[i as int],
                        from@, to@));
                }
            }
            i = i + 1;
        }
        proof {
            assert(self.headers.deep_view() =~= rename_headers(orig, from@, to@));
        }
        if found {
            assert(orig.contains(from@));
            Ok(())
        } else {
            assert(!orig.contains(from@));
            assert(self.headers.deep_view() =~= rename_headers(orig, from@, to@));
            assert(self.headers.deep_view() =~= orig);
            Err(ConnectorError::DecodeError(String::from_str(
                "a column to be renamed is missing from the response",
            )))
        }
    }
}

/// The position of the first header equal to `name`, or the header count
/// when no header matches.
pub open spec fn first_index_of(hs: Seq<Seq<char>>, name: Seq<char>) -> int
    decreases hs.len(),
{
    if hs.len() == 0 {
        0
    } else if hs[0] == name {
        0
    } else {
        1 + first_index_of(hs.drop_first(), name)
    }
}

/// The first match sits where the scan finds it: behind every non-match and
/// at a match.
proof fn lemma_first_index_at(hs: Seq<Seq<char>>, name: Seq<char>, k: int)
    requires
        0 <= k <= hs.len(),
        forall|j: int| 0 <= j < k ==> hs[j] != name,
        k < hs.len() ==> hs[k] == name,
    ensures
        first_index_of(hs, name) == k,
    decreases k,
{
    if k == 0 {
    } else {
        lemma_first_index_at(hs.drop_first(), name, k - 1);
    }
}

/// A name occurs among the headers exactly when the scan stops before their
/// end.
proof fn lemma_first_index_contains(hs: Seq<Seq<char>>, name: Seq<char>)
    ensures
        hs.contains(name) <==> first_index_of(hs, name) < hs.len(),
        0 <= first_index_of(hs, name),
        first_index_of(hs, name) < hs.len() ==> hs[first_index_of(hs, name)] == name,
    decreases hs.len(),
{
    if hs.len() > 0 && hs[0] != name {
        lemma_first_index_contains(hs.drop_first(), name);
        assert forall|j: int| 0 <= j < hs.len() && hs[j] == name implies hs.drop_first().contains(
            name) by {
            assert(hs.drop_first()[j - 1] == name);
        }
    }
}

impl ResponseTable {
    /// The values of the column `name`, first match when names repeat, one
    /// value per row and in row order; a table without such a column has no
    /// values for it.
    pub fn column(&self, name: &str) -> (res: Option<Vec<String>>)
        requires
            self.wf(),
        ensures
            res is Some <==> self.headers.deep_view().contains(name@),
            res matches Some(col) ==> col.deep_view() == self.rows.deep_view().map_values(
                |r: Seq<Seq<char>>| r[first_index_of(self.headers.deep_view(), name@)]),
    {
        let ghost hs = self.headers.deep_view();
        let name_string = String::from_str(name);
        let mut j: usize = 0;
        while j < self.headers.len()
            invariant
                self.wf(),
                hs == self.headers.deep_view(),
                name_string@ == name@,
                j <= hs.len(),
                hs.len() == self.headers@.len(),
                forall|k: int| 0 <= k < j ==> hs[k] != name@,
            decreases self.headers@.len() - j,
        {
            if self.headers[j] == name_string {
                proof {
                    assert(hs[j as int] == self.headers@[j as int]@);
                    lemma_first_index_at(hs, name@, j as int);
                    assert(hs.contains(name@));
                }
                let mut col: Vec<String> = Vec::new();
                let ghost target = self.rows.deep_view().map_values(
                    |r: Seq<Seq<char>>| r[first_index_of(hs, name@)]);
                let mut i: usize = 0;
                while i < self.rows.len()
                    invariant
                        hs == self.headers.deep_view(),
                        self.wf(),
                        first_index_of(hs, name@) == j,
                        j < hs.len(),
                        hs.len() == self.headers@.len(),
                        i <= self.rows@.len(),
                        target == self.rows.deep_view().map_values(
                            |r: Seq<Seq<char>>| r[first_index_of(hs, name@)]),
                        target.len() == self.rows@.len(),
                        col.deep_view() =~= target.take(i as int),
                    decreases self.rows@.len() - i,
                {
                    let ghost old_dv = col.deep_view();
                    col.push(self.rows[i][j].clone());
                    proof {
                        assert(col.deep_view() =~= old_dv + seq![self.rows.deep_view()[i as int][
                            j as int]]);
                        assert(col.deep_view() =~= target.take(i + 1));
                    }
                    i = i + 1;
                }
                proof {
                    assert(target.take(self.rows@.len() as int) =~= target);
                }
                return Some(col);
            }
            proof {
                assert(hs[j as int] == self.headers@[j as int]@);
                assert(hs[j as int] != name@);
            }
            j = j + 1;
        }
        proof {
            lemma_first_index_at(hs, name@, hs.len() as int);
            lemma_first_index_contains(hs, name@);
        }
        None
    }
}

/// The three columns a lightning report names in its own words.
pub open spec fn stroke_time_label() -> Seq<char> {
    "stroke_time:sql"@
}

pub open spec fn stroke_lat_label() -> Seq<char> {
    "stroke_lat:d"@
}

pub open spec fn stroke_lon_label() -> Seq<char> {
    "stroke_lon:d"@
}

/// The generic column name every shape shares for the validity time.
pub open spec fn validdate_label() -> Seq<char> {
    "validdate"@
}

/// The fixed rename map a decoded lightning table goes through: each
/// lightning-specific column name becomes the generic one.
pub open spec fn lightning_renamed(hs: Seq<Seq<char>>) -> Seq<Seq<char>> {
    rename_headers(rename_headers(rename_headers(hs, stroke_time_label(), validdate_label()),
        stroke_lat_label(), lat_label()), stroke_lon_label(), lon_label())
}

/// Whether a header row carries all three lightning-specific columns.
pub open spec fn has_lightning_columns(hs: Seq<Seq<char>>) -> bool {
    hs.contains(stroke_time_label()) && hs.contains(stroke_lat_label()) && hs.contains(
        stroke_lon_label())
}

/// Renaming `from` leaves no occurrence of `from` behind.
pub proof fn lemma_rename_clears_from(hs: Seq<Seq<char>>, from: Seq<char>, to: Seq<char>)
    requires
        from != to,
    ensures
        !rename_headers(hs, from, to).contains(from),
{
    assert forall|i: int| 0 <= i < hs.len() implies rename_headers(hs, from, to)[i] != from by {
        assert(rename_headers(hs, from, to)[i] == rename_header(hs[i], from, to));
    }
}

/// Renaming `from` puts `to` wherever `from` stood.
pub proof fn lemma_rename_gives_to(hs: Seq<Seq<char>>, from: Seq<char>, to: Seq<char>)
    requires
        hs.contains(from),
    ensures
        rename_headers(hs, from, to).contains(to),
{
    let i = choose|i: int| 0 <= i < hs.len() && hs[i] == from;
    assert(rename_headers(hs, from, to)[i] == to);
}

/// Renaming `from` neither adds nor removes any other name.
pub proof fn lemma_rename_keeps_other(hs: Seq<Seq<char>>, from: Seq<char>, to: Seq<char>,
    x: Seq<char>)
    requires
        x != from,
        x != to,
    ensures
        rename_headers(hs, from, to).contains(x) <==> hs.contains(x),
{
    if hs.contains(x) {
        let i = choose|i: int| 0 <= i < hs.len() && hs[i] == x;
        assert(rename_headers(hs, from, to)[i] == x);
    }
    if rename_headers(hs, from, to).contains(x) {
        let i = choose|i: int| 0 <= i < hs.len() && rename_headers(hs, from, to)[i] == x;
        assert(rename_header(hs[i], from, to) == x);
        assert(hs[i] == x);
    }
}

/// The six column names the lightning rename speaks of are pairwise
/// distinct.
pub proof fn lemma_lightning_labels_distinct()
    ensures
        stroke_time_label() != stroke_lat_label(),
        stroke_time_label() != stroke_lon_label(),
        stroke_lat_label() != stroke_lon_label(),
        validdate_label() != stroke_time_label(),
        validdate_label() != stroke_lat_label(),
        validdate_label() != stroke_lon_label(),
        lat_label() != stroke_time_label(),
        lat_label() != stroke_lat_label(),
        lat_label() != stroke_lon_label(),
        lat_label() != validdate_label(),
        lon_label() != stroke_time_label(),
        lon_label() != stroke_lat_label(),
        lon_label() != stroke_lon_label(),
        lon_label() != validdate_label(),
        lon_label() != lat_label(),
{
    reveal_strlit("stroke_time:sql");
    reveal_strlit("stroke_lat:d");
    reveal_strlit("stroke_lon:d");
    reveal_strlit("validdate");
    reveal_strlit("lat");
    reveal_strlit("lon");
    assert(stroke_time_label().len() == 15);
    assert(stroke_lat_label().len() == 12);
    assert(stroke_lon_label().len() == 12);
    assert(validdate_label().len() == 9);
    assert(lat_label().len() == 3);
    assert(lon_label().len() == 3);
    assert(stroke_lat_label()[8] != stroke_lon_label()[8]);
    assert(lat_label()[1] != lon_label()[1]);
}

/// A decoded lightning table carries the generic `validdate`, `lat` and
/// `lon` columns and none of the lightning-specific names, whenever the
/// response carried the lightning-specific ones.
pub proof fn lemma_lightning_rename_complete(hs: Seq<Seq<char>>)
    requires
        has_lightning_columns(hs),
    ensures
        lightning_renamed(hs).contains(validdate_label()),
        lightning_renamed(hs).contains(lat_label()),
        lightning_renamed(hs).contains(lon_label()),
        !lightning_renamed(hs).contains(stroke_time_label()),
        !lightning_renamed(hs).contains(stroke_lat_label()),
        !lightning_renamed(hs).contains(stroke_lon_label()),
{
    lemma_lightning_labels_distinct();
    let h1 = rename_headers(hs, stroke_time_label(), validdate_label());
    let h2 = rename_headers(h1, stroke_lat_label(), lat_label());
    let h3 = rename_headers(h2, stroke_lon_label(), lon_label());
    lemma_rename_gives_to(hs, stroke_time_label(), validdate_label());
    lemma_rename_keeps_other(h1, stroke_lat_label(), lat_label(), validdate_label());
    lemma_rename_keeps_other(h2, stroke_lon_label(), lon_label(), validdate_label());
    lemma_rename_keeps_other(hs, stroke_time_label(), validdate_label(), stroke_lat_label());
    lemma_rename_gives_to(h1, stroke_lat_label(), lat_label());
    lemma_rename_keeps_other(h2, stroke_lon_label(), lon_label(), lat_label());
    lemma_rename_keeps_other(hs, stroke_time_label(), validdate_label(), stroke_lon_label());
    lemma_rename_keeps_other(h1, stroke_lat_label(), lat_label(), stroke_lon_label());
    lemma_rename_gives_to(h2, stroke_lon_label(), lon_label());
    lemma_rename_clears_from(hs, stroke_time_label(), validdate_label());
    lemma_rename_keeps_other(h1, stroke_lat_label(), lat_label(), stroke_time_label());
    lemma_rename_keeps_other(h2, stroke_lon_label(), lon_label(), stroke_time_label());
    lemma_rename_clears_from(h1, stroke_lat_label(), lat_label());
    lemma_rename_keeps_other(h2, stroke_lon_label(), lon_label(), stroke_lat_label());
    lemma_rename_clears_from(h2, stroke_lon_label(), lon_label());
}

/// Trimming trailing blank lines never reaches past a prefix whose last
/// line has text.
proof fn lemma_trim_skips_prefix(a: Seq<Seq<char>>, x: Seq<Seq<char>>)
    requires
        a.len() > 0,
        a.last().len() != 0,
    ensures
        trim_trailing_blanks(a + x) =~~= a + trim_trailing_blanks(x),
    decreases x.len(),
{
    if x.len() == 0 {
        assert(a + x =~~= a);
        assert(trim_trailing_blanks(a) == a);
        assert(a + trim_trailing_blanks(x) =~~= a);
    } else if x.last().len() == 0 {
        assert((a + x).last() == x.last());
        assert((a + x).drop_last() =~~= a + x.drop_last());
        lemma_trim_skips_prefix(a, x.drop_last());
    } else {
        assert((a + x).last() == x.last());
        assert((a + x).last().len() != 0);
    }
}

/// Two metadata lines in front of a table body change nothing but the
/// skip: with the two-line preamble skip, the whole decodes exactly as the
/// table body alone decodes without one. A skip of two is exact, neither
/// line more nor less.
#[verifier::rlimit(30)]
pub proof fn lemma_pivoted_preamble_skip(m1: Seq<char>, m2: Seq<char>, rest: Seq<char>)
    requires
        forall|j: int| 0 <= j < m1.len() ==> m1[j] != '\n',
        forall|j: int| 0 <= j < m2.len() ==> m2[j] != '\n',
        m1.len() > 0 ==> m1.last() != '\r',
        m2.len() > 0,
        m2.last() != '\r',
    ensures
        lines_of(m1 + seq!['\n'] + m2 + seq!['\n'] + rest) =~~= seq![m1, m2] + lines_of(rest),
        csv_ok(m1 + seq!['\n'] + m2 + seq!['\n'] + rest, 2) <==> csv_ok(rest, 0),
        csv_ok(rest, 0) ==> csv_headers(m1 + seq!['\n'] + m2 + seq!['\n'] + rest, 2)
            == csv_headers(rest, 0),
        csv_ok(rest, 0) ==> csv_rows(m1 + seq!['\n'] + m2 + seq!['\n'] + rest, 2) =~~= csv_rows(
            rest, 0),
{
    let whole = m1 + seq!['\n'] + m2 + seq!['\n'] + rest;
    let tail = m2 + seq!['\n'] + rest;
    assert forall|j: int| 0 <= j < m1.len() implies whole[j] != '\n' by {
        assert(whole[j] == m1[j]);
    }
    assert(whole[m1.len() as int] == '\n');
    crate::text::lemma_split_on_first_sep(whole, '\n', m1.len() as int);
    assert(whole.take(m1.len() as int) =~= m1);
    assert(whole.skip(m1.len() as int + 1) =~= tail);
    assert forall|j: int| 0 <= j < m2.len() implies tail[j] != '\n' by {
        assert(tail[j] == m2[j]);
    }
    assert(tail[m2.len() as int] == '\n');
    crate::text::lemma_split_on_first_sep(tail, '\n', m2.len() as int);
    assert(tail.take(m2.len() as int) =~= m2);
    assert(tail.skip(m2.len() as int + 1) =~= rest);
    assert(split_on(whole, '\n') =~~= seq![m1, m2] + split_on(rest, '\n'));
    let sc = |l: Seq<char>| strip_cr(l);
    assert(strip_cr(m1) == m1);
    assert(strip_cr(m2) == m2);
    assert(split_on(whole, '\n').map_values(sc) =~~= seq![m1, m2] + split_on(rest,
        '\n').map_values(sc)) by {
        assert forall|i: int| 0 <= i < split_on(whole, '\n').len() implies split_on(whole,
            '\n').map_values(sc)[i] == (seq![m1, m2] + split_on(rest, '\n').map_values(sc))[i] by {
            if i >= 2 {
                assert(split_on(whole, '\n')[i] == split_on(rest, '\n')[i - 2]);
            }
        }
    }
    lemma_trim_skips_prefix(seq![m1, m2], split_on(rest, '\n').map_values(sc));
    assert(lines_of(whole) =~~= seq![m1, m2] + lines_of(rest));
    let lw = lines_of(whole);
    let lr = lines_of(rest);
    assert(lw.len() == lr.len() + 2);
    assert forall|i: int| #![trigger lw[i]] 2 <= i < lw.len() implies lw[i] == lr[i - 2] by {}
    if csv_ok(rest, 0) {
        assert forall|i: int| #![trigger lw[i]] 2 < i < lw.len() implies split_on(lw[i],
            ';').len() == split_on(lw[2], ';').len() by {
            assert(lw[i] == lr[i - 2]);
            assert(lw[2] == lr[0]);
        }
        assert(csv_ok(whole, 2));
        assert(csv_headers(whole, 2) == csv_headers(rest, 0));
        assert(lw.skip(3) =~~= lr.skip(1));
        assert(csv_rows(whole, 2) =~~= csv_rows(rest, 0));
    }
    if csv_ok(whole, 2) {
        assert(lr.len() > 0);
        assert forall|i: int| #![trigger lr[i]] 0 < i < lr.len() implies split_on(lr[i],
            ';').len() == split_on(lr[0], ';').len() by {
            assert(lr[i] == lw[i + 2]);
            assert(lr[0] == lw[2]);
        }
        assert(csv_ok(rest, 0));
    }
}

} // verus!
