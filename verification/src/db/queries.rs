//! The rows of the database: what goes into them and what comes out.
use vstd::prelude::*;
use vstd::string::*;

use crate::db::models::{Webhook, WebhookRow};
use crate::json::list_to_json;
use crate::rate_limiter::LoginRecord;

verus! {

/// The stored counter of failed logins.
#[derive(Debug, Clone)]
pub struct LoginFailureRow {
    pub count: i64,
    /// When the window began, as an RFC 3339 date and time.
    pub window_start: String,
}

/// The seconds since the epoch that an RFC 3339 text stands for.
pub uninterp spec fn rfc3339_seconds(text: Seq<char>) -> Option<i64>;

/// The RFC 3339 text for a number of seconds since the epoch.
pub uninterp spec fn rfc3339_text(seconds: i64) -> Option<Seq<char>>;

/// Whether a time is in the years from 0 to 9999, which RFC 3339 can name.
pub open spec fn has_rfc3339(seconds: i64) -> bool {
    -62167219200 <= seconds <= 253402300799
}

/// `time::OffsetDateTime::parse` of an RFC 3339 text, and `unix_timestamp` of what it gives; no
/// value where the text is not one. The result depends on the text alone.
#[verifier::external_body]
pub(crate) fn rfc3339_parse(text: &str) -> (r: Option<i64>)
    ensures
        r == rfc3339_seconds(text@),
{
    time::OffsetDateTime::parse(text, &time::format_description::well_known::Rfc3339).map(
        |t| t.unix_timestamp(),
    ).ok()
}

/// `time::OffsetDateTime::from_unix_timestamp`, and `format` as RFC 3339 of what it gives. There
/// is a text exactly for the years from 0 to 9999, and parsing it gives the same second.
#[verifier::external_body]
fn rfc3339_format(seconds: i64) -> (r: Option<String>)
    ensures
        crate::text::opt_view(r) == rfc3339_text(seconds),
        r is Some <==> has_rfc3339(seconds),
        r is Some ==> rfc3339_seconds(r->0@) == Some(seconds),
{
    time::OffsetDateTime::from_unix_timestamp(seconds).ok().and_then(
        |t| t.format(&time::format_description::well_known::Rfc3339).ok(),
    )
}

/// Whether a row holds a record: its count, and its time where the stored form can name it.
pub open spec fn stores(row: LoginFailureRow, record: LoginRecord) -> bool {
    &&& row.count == record.count
    &&& row.window_start@ == (match rfc3339_text(record.window_start_unix) {
        Some(text) => text,
        None => Seq::empty(),
    })
    &&& has_rfc3339(record.window_start_unix) ==> rfc3339_seconds(row.window_start@) == Some(
        record.window_start_unix,
    )
}

/// The row to store for a counter; a time that has no RFC 3339 form is stored as an empty text.
pub fn save_login_state(record: LoginRecord) -> (r: LoginFailureRow)
    ensures
        stores(r, record),
{
    let window_start = match rfc3339_format(record.window_start_unix) {
        Some(text) => text,
        None => String::new(),
    };
    LoginFailureRow { count: record.count as i64, window_start }
}

/// The webhooks that the rows store, in the same order.
pub fn rows_to_webhooks(rows: Vec<WebhookRow>) -> (r: Vec<Webhook>)
    ensures
        r@.len() == rows@.len(),
        forall|i: int|
            0 <= i < rows@.len() ==> crate::db::models::is_stored_as(#[trigger] r@[i], rows@[i]),
{
    let mut out: Vec<Webhook> = Vec::new();
    for row in it: rows
        invariant
            it.seq() == rows@,
            out@.len() == it.index(),
            forall|i: int|
                0 <= i < it.index() ==> crate::db::models::is_stored_as(
                    #[trigger] out@[i],
                    rows@[i],
                ),
    {
        out.push(Webhook::from(row));
    }
    out
}

/// Whether a text is what is stored for these events: their JSON list, which reads as them.
pub open spec fn holds_events(column: Seq<char>, events: Seq<Seq<char>>) -> bool {
    &&& column == crate::json::json_list(events)
    &&& crate::json::list_in_json(column) == Some(events)
}

/// What is stored as the events of a webhook.
pub fn events_column(events: &[String]) -> (r: String)
    ensures
        holds_events(r@, crate::text::views(events@)),
{
    match list_to_json(events) {
        Some(text) => text,
        None => "[]".to_owned(),
    }
}

/// A webhook that is read back has the events that were stored.
pub proof fn events_survive_storage(events: Seq<Seq<char>>, row: WebhookRow, w: Webhook)
    requires
        holds_events(row.events@, events),
        crate::db::models::is_stored_as(w, row),
    ensures
        crate::text::views(w.events@) == events,
{
}

/// The number of rows before a page, pages being counted from one.
pub fn page_offset(page: i64, per_page: i64) -> (r: i64)
    requires
        page > i64::MIN,
        i64::MIN <= (page - 1) * per_page <= i64::MAX,
    ensures
        r == (page - 1) * per_page,
{
    (page - 1) * per_page
}

/// A stored counter has the count of the record and, where the stored form can name it, its time.
pub proof fn row_holds_the_record(row: LoginFailureRow, record: LoginRecord)
    requires
        stores(row, record),
    ensures
        row.count == record.count,
        -62167219200 <= record.window_start_unix <= 253402300799 ==> rfc3339_seconds(
            row.window_start@,
        ) == Some(record.window_start_unix),
        rfc3339_text(record.window_start_unix) matches Some(text) ==> row.window_start@ == text,
        rfc3339_text(record.window_start_unix) is None ==> row.window_start@.len() == 0,
{
}

} // verus!
