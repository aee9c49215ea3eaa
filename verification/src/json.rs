//! Decoding of the platform's JSON responses: the token body, the listing
//! envelope, and one stream record. The JSON tree itself is serde_json's;
//! what each extraction returns is a function of the body text alone and
//! carries a name, tied to the call by one trusted item, and everything
//! decided from the extracted values is verified.

use vstd::prelude::*;
use crate::duration::{duration_hhmm, duration_view, ts_secs_of};
use crate::entry::Entry;
use crate::error::AppError;
use crate::filter::opt_string_view;

verus! {

#[verifier::external_type_specification]
#[verifier::external_body]
pub struct ExValue(serde_json::Value);

/// What extracting the access token from a credential-exchange body
/// returns: the string under the access-token field where the body is
/// valid JSON and has one, `None` otherwise — a function of the body text
/// alone.
pub uninterp spec fn token_field_of(body: Seq<char>) -> Option<Seq<char>>;

/// What extracting the next cursor from a listing body returns: the
/// string under the envelope's pagination cursor where the body is valid
/// JSON and has one, `None` otherwise — a function of the body text
/// alone.
pub uninterp spec fn cursor_of(body: Seq<char>) -> Option<Seq<char>>;

/// What extracting the stream records from a listing body returns: one
/// raw record per element of the data array, in array order, where the
/// body is valid JSON with a data array; `None` where the body does not
/// parse or the data field is absent or not an array — a function of the
/// body text alone.
pub uninterp spec fn page_fields_of(body: Seq<char>) -> Option<Seq<RawRecord>>;

/// The five raw fields of one stream record as the response carries
/// them: each `None` where the field is absent or not of the stated
/// type.
pub struct RawRecord {
    /// The record's language field, where it is a string.
    pub language: Option<String>,
    /// The record's user-name field, where it is a string.
    pub user_name: Option<String>,
    /// The record's title field, where it is a string.
    pub title: Option<String>,
    /// The record's viewer-count field, where it is a non-negative
    /// integer that fits a u64.
    pub viewer_count: Option<u64>,
    /// The record's start-timestamp field, where it is a string.
    pub started_at: Option<String>,
}

/// Relies on serde_json::from_str and Value::{get, as_str}: the string
/// under the access-token field, depending on the body text alone.
#[verifier::external_body]
fn extract_token_field(body: &str) -> (r: Option<String>)
    ensures
        opt_string_view(r) == token_field_of(body@),
{
    let v: serde_json::Value = serde_json::from_str(body).ok()?;
    Some(v.get("access_token")?.as_str()?.to_string())
}

/// Relies on serde_json::from_str and Value::{get, as_str}: the string
/// under pagination.cursor, depending on the body text alone.
#[verifier::external_body]
fn extract_cursor(body: &str) -> (r: Option<String>)
    ensures
        opt_string_view(r) == cursor_of(body@),
{
    let v: serde_json::Value = serde_json::from_str(body).ok()?;
    Some(v.get("pagination")?.get("cursor")?.as_str()?.to_string())
}

/// Relies on serde_json::Value::get: the value of the named field of an
/// object, where present.
#[verifier::external_body]
fn json_get<'a>(v: &'a serde_json::Value, key: &str) -> Option<&'a serde_json::Value> {
    v.get(key)
}

/// Relies on serde_json::Value::as_str: the owned text of a JSON string
/// value, where the value is one.
#[verifier::external_body]
fn json_as_str(v: &serde_json::Value) -> Option<String> {
    match v.as_str() {
        Some(s) => Some(s.to_string()),
        None => None,
    }
}

/// Relies on serde_json::Value::as_u64: the value of a JSON integer that
/// fits a u64 and is not negative.
#[verifier::external_body]
fn json_as_u64(v: &serde_json::Value) -> Option<u64> {
    v.as_u64()
}

/// The named string field of `v`, where `v` has it.
fn get_str_field(v: &serde_json::Value, key: &str) -> Option<String> {
    match json_get(v, key) {
        Option::Some(f) => json_as_str(f),
        Option::None => Option::None,
    }
}

/// The five raw fields of one record value.
fn raw_record_of(v: &serde_json::Value) -> RawRecord {
    let viewer_count: Option<u64> = match json_get(v, "viewer_count") {
        Option::Some(f) => json_as_u64(f),
        Option::None => Option::None,
    };
    RawRecord {
        language: get_str_field(v, "language"),
        user_name: get_str_field(v, "user_name"),
        title: get_str_field(v, "title"),
        viewer_count,
        started_at: get_str_field(v, "started_at"),
    }
}

/// Relies on serde_json::from_str and Value::{get, as_array}: the raw
/// record of each element of the data array, in array order, depending
/// on the body text alone.
#[verifier::external_body]
fn extract_page_fields(body: &str) -> (r: Option<Vec<RawRecord>>)
    ensures
        match r {
            Option::Some(recs) => page_fields_of(body@) == Option::Some(recs@),
            Option::None => page_fields_of(body@) is None,
        },
{
    let v: serde_json::Value = serde_json::from_str(body).ok()?;
    let arr = v.get("data")?.as_array()?;
    let mut out: Vec<RawRecord> = Vec::new();
    let mut i: usize = 0;
    while i < arr.len() {
        out.push(raw_record_of(&arr[i]));
        i = i + 1;
    }
    Some(out)
}

/// Builds a token result from the extracted access-token field: the token
/// exactly where the field was a string, a protocol error otherwise.
pub fn token_from_field(field: Option<String>) -> (r: Result<String, AppError>)
    ensures
        match field {
            Option::Some(tok) => r == Result::<String, AppError>::Ok(tok),
            Option::None => r == Result::<String, AppError>::Err(AppError::ProtocolError),
        },
{
    match field {
        Option::Some(tok) => Result::Ok(tok),
        Option::None => Result::Err(AppError::ProtocolError),
    }
}

/// The bearer token held in a credential-exchange response body: the
/// string under the access-token field. Fails with a protocol error
/// exactly where the body is not valid JSON or the field is absent or
/// not a string.
pub fn parse_access_token(body: &str) -> (r: Result<String, AppError>)
    ensures
        (token_field_of(body@) is Some) ==> (r matches Result::Ok(tok) && Option::Some(tok@)
            == token_field_of(body@)),
        (token_field_of(body@) is None) ==> r == Result::<String, AppError>::Err(
            AppError::ProtocolError,
        ),
{
    token_from_field(extract_token_field(body))
}

/// Builds one entry from the five extracted record fields. Succeeds
/// exactly where every field was present with the right type; otherwise
/// reports the first offending field, in the order language, user name,
/// title, viewer count, start timestamp. The live duration is rendered
/// from the start timestamp as of `now_secs`.
pub fn entry_from_fields(
    lang: Option<String>,
    user_name: Option<String>,
    title: Option<String>,
    viewer_count: Option<u64>,
    started_at: Option<String>,
    now_secs: i64,
) -> (r: Result<Entry, AppError>)
    ensures
        (lang is None) ==> (r matches Result::Err(e) && e matches AppError::DecodeError(f)
            && f@ == "language"@),
        (lang is Some && user_name is None) ==> (r matches Result::Err(e) && e matches
            AppError::DecodeError(f) && f@ == "user_name"@),
        (lang is Some && user_name is Some && title is None) ==> (r matches Result::Err(e)
            && e matches AppError::DecodeError(f) && f@ == "title"@),
        (lang is Some && user_name is Some && title is Some && viewer_count is None) ==> (r matches
            Result::Err(e) && e matches AppError::DecodeError(f) && f@ == "viewer_count"@),
        (lang is Some && user_name is Some && title is Some && viewer_count is Some && started_at
            is None) ==> (r matches Result::Err(e) && e matches AppError::DecodeError(f)
            && f@ == "started_at"@),
        (lang is Some && user_name is Some && title is Some && viewer_count is Some && started_at
            is Some) ==> (r matches Result::Ok(e) && e.lang == lang.unwrap() && e.display_name
            == user_name.unwrap() && e.title == title.unwrap() && e.viewer_count
            == viewer_count.unwrap() && e.live_duration@ == duration_view(
            ts_secs_of(started_at.unwrap()@),
            now_secs,
        )),
{
    let lang = match lang {
        Option::Some(x) => x,
        Option::None => {
            return Result::Err(AppError::DecodeError("language".to_owned()));
        },
    };
    let user_name = match user_name {
        Option::Some(x) => x,
        Option::None => {
            return Result::Err(AppError::DecodeError("user_name".to_owned()));
        },
    };
    let title = match title {
        Option::Some(x) => x,
        Option::None => {
            return Result::Err(AppError::DecodeError("title".to_owned()));
        },
    };
    let viewer_count = match viewer_count {
        Option::Some(x) => x,
        Option::None => {
            return Result::Err(AppError::DecodeError("viewer_count".to_owned()));
        },
    };
    let started_at = match started_at {
        Option::Some(x) => x,
        Option::None => {
            return Result::Err(AppError::DecodeError("started_at".to_owned()));
        },
    };
    let live_duration = duration_hhmm(started_at.as_str(), now_secs);
    Result::Ok(
        Entry {
            lang,
            display_name: user_name,
            title,
            viewer_count,
            live_duration,
        },
    )
}

/// A record with every field present and of the right type.
pub open spec fn record_ok(rec: RawRecord) -> bool {
    &&& rec.language is Some
    &&& rec.user_name is Some
    &&& rec.title is Some
    &&& rec.viewer_count is Some
    &&& rec.started_at is Some
}

/// Every record of `recs` is well formed.
pub open spec fn records_ok(recs: Seq<RawRecord>) -> bool {
    forall|i: int| 0 <= i < recs.len() ==> record_ok(#[trigger] recs[i])
}

/// `e` is the entry decoded from `rec`, its live duration rendered as of
/// `now_secs`.
pub open spec fn entry_of_record(e: Entry, rec: RawRecord, now_secs: i64) -> bool {
    &&& e.lang == rec.language.unwrap()
    &&& e.display_name == rec.user_name.unwrap()
    &&& e.title == rec.title.unwrap()
    &&& e.viewer_count == rec.viewer_count.unwrap()
    &&& e.live_duration@ == duration_view(ts_secs_of(rec.started_at.unwrap()@), now_secs)
}

/// The string of `o`, cloned.
fn clone_opt_string(o: &Option<String>) -> (r: Option<String>)
    ensures
        r == *o,
{
    match o {
        Option::Some(s) => Option::Some(s.clone()),
        Option::None => Option::None,
    }
}

/// One entry decoded from a raw record, with the live duration rendered
/// as of `now_secs`. Succeeds exactly where the record is well formed;
/// otherwise the first offending field is reported.
pub fn entry_from_record(rec: &RawRecord, now_secs: i64) -> (r: Result<Entry, AppError>)
    ensures
        record_ok(*rec) ==> (r matches Result::Ok(e) && entry_of_record(e, *rec, now_secs)),
        !record_ok(*rec) ==> (r matches Result::Err(e) && e matches AppError::DecodeError(_)),
{
    entry_from_fields(
        clone_opt_string(&rec.language),
        clone_opt_string(&rec.user_name),
        clone_opt_string(&rec.title),
        rec.viewer_count,
        clone_opt_string(&rec.started_at),
        now_secs,
    )
}

/// One listing page decoded from a response body: the decoded entries in
/// array order and the cursor the envelope carries. A body that is not
/// valid JSON or whose data field is absent or not an array fails with a
/// protocol error, and a malformed record fails with its decode error —
/// no partial page is returned.
pub fn parse_streams_page(body: &str, now_secs: i64) -> (r: Result<
    (Vec<Entry>, Option<String>),
    AppError,
>)
    ensures
        (page_fields_of(body@) is None) ==> r == Result::<
            (Vec<Entry>, Option<String>),
            AppError,
        >::Err(AppError::ProtocolError),
        (page_fields_of(body@) is Some && records_ok(page_fields_of(body@).unwrap())) ==> (
        r matches Result::Ok(p) && p.0@.len() == page_fields_of(body@).unwrap().len() && (
        forall|i: int|
            0 <= i < page_fields_of(body@).unwrap().len() ==> entry_of_record(
                #[trigger] p.0@[i],
                page_fields_of(body@).unwrap()[i],
                now_secs,
            )) && opt_string_view(p.1) == cursor_of(body@)),
        (page_fields_of(body@) is Some && !records_ok(page_fields_of(body@).unwrap())) ==> (
        r matches Result::Err(e) && e matches AppError::DecodeError(_)),
{
    let recs = match extract_page_fields(body) {
        Option::Some(recs) => recs,
        Option::None => {
            return Result::Err(AppError::ProtocolError);
        },
    };
    let cursor = extract_cursor(body);
    let mut entries: Vec<Entry> = Vec::new();
    let mut i: usize = 0;
    while i < recs.len()
        invariant
            page_fields_of(body@) == Option::Some(recs@),
            opt_string_view(cursor) == cursor_of(body@),
            i <= recs@.len(),
            entries@.len() == i,
            forall|k: int| 0 <= k < i ==> record_ok(#[trigger] recs@[k]),
            forall|k: int|
                0 <= k < i ==> entry_of_record(#[trigger] entries@[k], recs@[k], now_secs),
        decreases recs@.len() - i,
    {
        match entry_from_record(&recs[i], now_secs) {
            Result::Ok(e) => entries.push(e),
            Result::Err(e) => {
                proof {
                    assert(!record_ok(recs@[i as int]));
                    assert(!records_ok(recs@));
                }
                return Result::Err(e);
            },
        }
        i = i + 1;
    }
    proof {
        assert(records_ok(recs@));
    }
    Result::Ok((entries, cursor))
}

} // verus!
