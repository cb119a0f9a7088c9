//! The query log as a table: one row for each query, with its cells
//! classified and formatted.

use vstd::prelude::*;
use vstd::string::*;
use vstd::utf8::encode_utf8;
use crate::classify::{block_status_text, make_row_color, row_accent_of, status_category_of};
use crate::elapsed::{elapsed_of, make_time_taken_and_color, parse_elapsed, readable};
use crate::model::{Accent, Query, Question, ValidationError};
use crate::text::{decimal_text, push_decimal, push_signed_decimal, signed_decimal_text};

verus! {

/// A point in time: the seconds since the start of 1970 in UTC, and the
/// nanoseconds past that second.
#[derive(Clone, Copy, Debug, PartialEq, Eq, Structural)]
pub struct Instant {
    pub secs: i64,
    pub nanos: u32,
}

/// The point in time that an RFC 3339 text denotes, as seconds and
/// nanoseconds; `None` where the text is no such time.
pub uninterp spec fn rfc3339_instant(text: Seq<char>) -> Option<(i64, u32)>;

/// Calls `chrono::DateTime::parse_from_rfc3339`. The contract gives the
/// outcome a name: the parsed time by its `timestamp` and
/// `timestamp_subsec_nanos`, or nothing where the parser refuses the text.
#[verifier::external_body]
fn parse_rfc3339(text: &str) -> (instant: Option<(i64, u32)>)
    ensures
        instant == rfc3339_instant(text@),
{
    match chrono::DateTime::parse_from_rfc3339(text) {
        Ok(time) => Some((time.timestamp(), time.timestamp_subsec_nanos())),
        Err(_) => None,
    }
}

/// The nanoseconds from `then` to `now`.
pub open spec fn age_nanos(then: Instant, now: Instant) -> int {
    (now.secs - then.secs) * 1_000_000_000 + (now.nanos - then.nanos)
}

/// The whole seconds from `then` to `now`, rounded towards zero.
pub open spec fn age_seconds(then: Instant, now: Instant) -> int {
    let nanos = age_nanos(then, now);
    if nanos >= 0 {
        nanos / 1_000_000_000
    } else {
        -((-nanos) / 1_000_000_000)
    }
}

/// How long ago `then` was at `now`: in seconds below one minute, in whole
/// minutes from there on.
pub open spec fn age_text_of(then: Instant, now: Instant) -> Seq<char> {
    let seconds = age_seconds(then, now);
    if seconds < 60 {
        signed_decimal_text(seconds) + " sec ago"@
    } else {
        decimal_text((seconds / 60) as nat) + " min ago"@
    }
}

/// Says how long ago `then` was at `now`.
pub fn age_text(then: Instant, now: Instant) -> (text: String)
    ensures
        text@ == age_text_of(then, now),
{
    let nanos: i128 = (now.secs as i128 - then.secs as i128) * 1_000_000_000 + (now.nanos as i128
        - then.nanos as i128);
    let mut text = String::new();
    if nanos >= 0 {
        let seconds: u128 = nanos as u128 / 1_000_000_000;
        if seconds < 60 {
            push_decimal(&mut text, seconds);
            text.append(" sec ago");
        } else {
            push_decimal(&mut text, seconds / 60);
            text.append(" min ago");
        }
    } else {
        let seconds: u128 = (-nanos) as u128 / 1_000_000_000;
        push_signed_decimal(&mut text, -(seconds as i128));
        text.append(" sec ago");
    }
    assert(text@ =~= age_text_of(then, now));
    text
}

/// The text of the time cell of a query made at `timestamp`: its age at
/// `now`, or "unknown" where the timestamp cannot be read.
pub open spec fn time_cell_of(timestamp: Seq<char>, now: Instant) -> Seq<char> {
    match rfc3339_instant(timestamp) {
        Some((secs, nanos)) => age_text_of(Instant { secs, nanos }, now),
        None => "unknown"@,
    }
}

/// Says how long before `now` the RFC 3339 time `timestamp` lies; `None`
/// where `timestamp` is no such time.
pub fn time_ago(timestamp: &str, now: Instant) -> (text: Option<String>)
    ensures
        text is Some <==> rfc3339_instant(timestamp@) is Some,
        text is Some ==> text->Some_0@ == time_cell_of(timestamp@, now),
{
    match parse_rfc3339(timestamp) {
        Some((secs, nanos)) => Some(age_text(Instant { secs, nanos }, now)),
        None => None,
    }
}

/// The text of the request cell: class, type and name of the question.
pub open spec fn request_text(question: Question) -> Seq<char> {
    "["@ + question.class@ + "] "@ + question.question_type@ + " - "@ + question.name@
}

/// Describes the question of a query in one line.
pub fn make_request_cell(q: &Question) -> (text: String)
    ensures
        text@ == request_text(*q),
{
    let mut text = String::from_str("[");
    text.append(q.class.as_str());
    text.append("] ");
    text.append(q.question_type.as_str());
    text.append(" - ");
    text.append(q.name.as_str());
    text
}

/// The name under which the client of a query is shown: the name that the
/// server knows it by, if it knows one that is not empty, else its address.
pub open spec fn client_label_of(query: Query) -> Seq<char> {
    match query.client_info {
        Some(info) => match info.name {
            Some(name) => if name@.len() > 0 {
                name@
            } else {
                query.client@
            },
            None => query.client@,
        },
        None => query.client@,
    }
}

/// Picks the name under which the client of a query is shown.
pub fn client_label(query: &Query) -> (label: String)
    ensures
        label@ == client_label_of(*query),
{
    match &query.client_info {
        Some(info) => match &info.name {
            Some(name) => if name.as_str().unicode_len() > 0 {
                name.clone()
            } else {
                query.client.clone()
            },
            None => query.client.clone(),
        },
        None => query.client.clone(),
    }
}

/// One row of the table.
#[derive(Clone, Debug, PartialEq, Eq)]
pub struct QueryRow {
    pub time: String,
    pub request: String,
    pub status: String,
    pub status_accent: Accent,
    pub time_taken: String,
    pub time_taken_accent: Accent,
    pub client: String,
    pub upstream: String,
    /// The accent of the row as a whole.
    pub accent: Accent,
}

impl QueryRow {
    /// Whether this is the row of `query` as shown at `now`.
    pub open spec fn shows(self, query: Query, now: Instant) -> bool {
        &&& self.time@ == time_cell_of(query.time@, now)
        &&& self.request@ == request_text(query.question)
        &&& self.status@ == status_category_of(query.reason@, query.cached).label_text()
        &&& self.status_accent == status_category_of(query.reason@, query.cached).accent_of()
        &&& self.time_taken@ == elapsed_of(encode_utf8(query.elapsed_ms@)).text_of()
        &&& self.time_taken_accent == elapsed_of(
            encode_utf8(query.elapsed_ms@),
        ).bucket_of().accent_of()
        &&& self.client@ == client_label_of(query)
        &&& self.upstream@ == query.upstream@
        &&& self.accent == row_accent_of(query.reason@)
    }
}

/// The table of the query log.
#[derive(Clone, Debug, PartialEq, Eq)]
pub struct QueryTable {
    pub headers: Vec<String>,
    /// The width of each column, in percent.
    pub widths: Vec<u16>,
    pub rows: Vec<QueryRow>,
}

/// The width above which the table shows the client and the upstream server.
pub const WIDE_TABLE: u16 = 120;

/// The headers of the table on a screen of `width` columns.
pub open spec fn headers_of(width: u16) -> Seq<Seq<char>> {
    if width > WIDE_TABLE {
        seq!["Time"@, "Request"@, "Status"@, "Time Taken"@, "Client"@, "Upstream DNS"@]
    } else {
        seq!["Time"@, "Request"@, "Status"@, "Time Taken"@]
    }
}

/// The widths of the table's columns on a screen of `width` columns.
pub open spec fn widths_of(width: u16) -> Seq<u16> {
    if width > WIDE_TABLE {
        seq![15u16, 35u16, 10u16, 10u16, 15u16, 15u16]
    } else {
        seq![20u16, 40u16, 20u16, 20u16]
    }
}

impl QueryTable {
    /// Whether this is the table of the queries `data` on a screen of `width`
    /// columns, as shown at `now`: one row for each query, in their order.
    pub open spec fn shows(self, data: Seq<Query>, width: u16, now: Instant) -> bool {
        &&& self.rows@.len() == data.len()
        &&& forall|i: int| 0 <= i < data.len() ==> (#[trigger] self.rows@[i]).shows(data[i], now)
        &&& self.headers@.len() == headers_of(width).len()
        &&& forall|i: int|
            0 <= i < self.headers@.len() ==> (#[trigger] self.headers@[i])@ == headers_of(width)[i]
        &&& self.widths@ == widths_of(width)
    }
}

/// Whether the elapsed time of every query can be read.
pub open spec fn all_readable(data: Seq<Query>) -> bool {
    forall|i: int| 0 <= i < data.len() ==> readable(encode_utf8((#[trigger] data[i]).elapsed_ms@))
}

/// Builds the row of one query.
pub fn make_query_row(query: &Query, now: Instant) -> (row: Result<QueryRow, ValidationError>)
    ensures
        match row {
            Ok(row) => readable(encode_utf8(query.elapsed_ms@)) && row.shows(*query, now),
            Err(error) => error == ValidationError::BadElapsed && !readable(
                encode_utf8(query.elapsed_ms@),
            ),
        },
{
    let (time_taken, time_taken_accent) = match make_time_taken_and_color(
        query.elapsed_ms.as_str(),
    ) {
        Ok(cell) => cell,
        Err(error) => {
            return Err(error);
        },
    };
    let time = match time_ago(query.time.as_str(), now) {
        Some(text) => text,
        None => String::from_str("unknown"),
    };
    let (status, status_accent) = block_status_text(query.reason.as_str(), query.cached);
    Ok(
        QueryRow {
            time,
            request: make_request_cell(&query.question),
            status,
            status_accent,
            time_taken,
            time_taken_accent,
            client: client_label(query),
            upstream: query.upstream.clone(),
            accent: make_row_color(query.reason.as_str()),
        },
    )
}

/// Builds the table of the query log for a screen of `width` columns, as
/// shown at `now`. A query whose elapsed time cannot be read fails the table.
pub fn make_query_table(data: &[Query], width: u16, now: Instant) -> (table: Result<
    QueryTable,
    ValidationError,
>)
    ensures
        match table {
            Ok(table) => all_readable(data@) && table.shows(data@, width, now),
            Err(error) => error == ValidationError::BadElapsed && !all_readable(data@),
        },
{
    let mut rows: Vec<QueryRow> = Vec::new();
    let mut i: usize = 0;
    while i < data.len()
        invariant
            0 <= i <= data@.len(),
            rows@.len() == i,
            forall|p: int| 0 <= p < i ==> readable(encode_utf8((#[trigger] data@[p]).elapsed_ms@)),
            forall|p: int| 0 <= p < i ==> (#[trigger] rows@[p]).shows(data@[p], now),
        decreases data@.len() - i,
    {
        match make_query_row(&data[i], now) {
            Ok(row) => {
                rows.push(row);
            },
            Err(error) => {
                return Err(error);
            },
        }
        i += 1;
    }
    let mut headers: Vec<String> = Vec::new();
    headers.push(String::from_str("Time"));
    headers.push(String::from_str("Request"));
    headers.push(String::from_str("Status"));
    headers.push(String::from_str("Time Taken"));
    let mut widths: Vec<u16> = Vec::new();
    if width > WIDE_TABLE {
        headers.push(String::from_str("Client"));
        headers.push(String::from_str("Upstream DNS"));
        widths.push(15);
        widths.push(35);
        widths.push(10);
        widths.push(10);
        widths.push(15);
        widths.push(15);
    } else {
        widths.push(20);
        widths.push(40);
        widths.push(20);
        widths.push(20);
    }
    assert(widths@ =~= widths_of(width));
    Ok(QueryTable { headers, widths, rows })
}

/// Tells whether the elapsed time of every query can be read, and with which
/// error the table fails where one cannot.
pub fn check_queries(data: &[Query]) -> (error: Option<ValidationError>)
    ensures
        error == if all_readable(data@) {
            None
        } else {
            Some(ValidationError::BadElapsed)
        },
{
    let mut i: usize = 0;
    while i < data.len()
        invariant
            0 <= i <= data@.len(),
            forall|p: int| 0 <= p < i ==> readable(encode_utf8((#[trigger] data@[p]).elapsed_ms@)),
        decreases data@.len() - i,
    {
        if parse_elapsed(data[i].elapsed_ms.as_str()).is_err() {
            return Some(ValidationError::BadElapsed);
        }
        i += 1;
    }
    None
}

} // verus!
