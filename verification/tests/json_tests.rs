use streamlist::config::require_credential;
use streamlist::entry::Entry;
use streamlist::error::AppError;
use streamlist::json::{
    entry_from_fields, entry_from_record, parse_access_token, parse_streams_page, RawRecord,
};

const NOW: i64 = 1714910400 + 5400;

fn record_json() -> String {
    "{\"language\":\"en\",\"user_name\":\"Some Channel\",\"title\":\"live now\",\"viewer_count\":42,\"started_at\":\"2024-05-05T12:00:00Z\"}".to_string()
}

#[test]
fn access_token_extracted() {
    let r = parse_access_token("{\"access_token\":\"abc123\",\"expires_in\":99}");
    assert_eq!(r.unwrap(), "abc123");
}

#[test]
fn access_token_invalid_json_is_protocol_error() {
    let r = parse_access_token("not json at all");
    assert!(matches!(r, Err(AppError::ProtocolError)));
}

#[test]
fn access_token_wrong_type_is_protocol_error() {
    let r = parse_access_token("{\"access_token\":5}");
    assert!(matches!(r, Err(AppError::ProtocolError)));
    let r2 = parse_access_token("{\"other\":\"x\"}");
    assert!(matches!(r2, Err(AppError::ProtocolError)));
}

#[test]
fn decode_full_record() {
    let body = format!("{{\"data\":[{}]}}", record_json());
    let (entries, _) = parse_streams_page(&body, NOW).unwrap();
    let e = &entries[0];
    assert_eq!(e.lang, "en");
    assert_eq!(e.display_name, "Some Channel");
    assert_eq!(e.title, "live now");
    assert_eq!(e.viewer_count, 42);
    assert_eq!(e.live_duration, "01:30");
}

#[test]
fn decode_missing_field_is_decode_error() {
    let body = "{\"data\":[{\"language\":\"en\",\"user_name\":\"x\"}]}";
    let r = parse_streams_page(body, NOW);
    match r {
        Err(AppError::DecodeError(f)) => assert_eq!(f, "title"),
        _ => panic!("expected a decode error"),
    }
}

#[test]
fn decode_negative_viewers_is_decode_error() {
    let body = "{\"data\":[{\"language\":\"en\",\"user_name\":\"x\",\"title\":\"t\",\"viewer_count\":-5,\"started_at\":\"2024-05-05T12:00:00Z\"}]}";
    let r = parse_streams_page(body, NOW);
    match r {
        Err(AppError::DecodeError(f)) => assert_eq!(f, "viewer_count"),
        _ => panic!("expected a decode error"),
    }
}

#[test]
fn decode_bad_timestamp_keeps_empty_duration() {
    let rec = RawRecord {
        language: Some("en".to_string()),
        user_name: Some("x".to_string()),
        title: Some("t".to_string()),
        viewer_count: Some(1),
        started_at: Some("garbage".to_string()),
    };
    let e = entry_from_record(&rec, NOW).unwrap();
    assert_eq!(e.live_duration, "");
}

#[test]
fn record_decodes_to_matching_entry() {
    let rec = RawRecord {
        language: Some("en".to_string()),
        user_name: Some("Chan".to_string()),
        title: Some("t".to_string()),
        viewer_count: Some(7),
        started_at: Some("2024-05-05T12:00:00Z".to_string()),
    };
    let e = entry_from_record(&rec, NOW).unwrap();
    assert_eq!(e.viewer_count, 7);
    assert_eq!(e.live_duration, "01:30");
    let bad = RawRecord { user_name: None, ..rec };
    match entry_from_record(&bad, NOW) {
        Err(AppError::DecodeError(f)) => assert_eq!(f, "user_name"),
        _ => panic!("expected a decode error"),
    }
}

#[test]
fn missing_credential_is_config_error() {
    let ok = require_credential("TWITCH_CLIENT_ID", Some("abc".to_string()));
    assert_eq!(ok.unwrap(), "abc");
    match require_credential("TWITCH_CLIENT_ID", None) {
        Err(AppError::ConfigError(n)) => assert_eq!(n, "TWITCH_CLIENT_ID"),
        _ => panic!("expected a config error"),
    }
}

#[test]
fn entry_from_fields_reports_first_missing() {
    let r = entry_from_fields(None, None, None, None, None, NOW);
    match r {
        Err(AppError::DecodeError(f)) => assert_eq!(f, "language"),
        _ => panic!("expected a decode error"),
    }
    let r2 = entry_from_fields(
        Some("en".to_string()),
        Some("n".to_string()),
        Some("t".to_string()),
        Some(1),
        None,
        NOW,
    );
    match r2 {
        Err(AppError::DecodeError(f)) => assert_eq!(f, "started_at"),
        _ => panic!("expected a decode error"),
    }
}

#[test]
fn streams_page_decodes_entries_and_cursor() {
    let body = format!(
        "{{\"data\":[{},{}],\"pagination\":{{\"cursor\":\"abc\"}}}}",
        record_json(),
        record_json()
    );
    let (entries, cursor): (Vec<Entry>, Option<String>) =
        parse_streams_page(&body, NOW).unwrap();
    assert_eq!(entries.len(), 2);
    assert_eq!(cursor, Some("abc".to_string()));
}

#[test]
fn streams_page_without_cursor_ends_pagination() {
    let body = format!("{{\"data\":[{}],\"pagination\":{{}}}}", record_json());
    let (entries, cursor) = parse_streams_page(&body, NOW).unwrap();
    assert_eq!(entries.len(), 1);
    assert_eq!(cursor, None);
}

#[test]
fn streams_page_missing_data_is_protocol_error() {
    let r = parse_streams_page("{\"pagination\":{\"cursor\":\"x\"}}", NOW);
    assert!(matches!(r, Err(AppError::ProtocolError)));
    let r2 = parse_streams_page("{\"data\":\"not an array\"}", NOW);
    assert!(matches!(r2, Err(AppError::ProtocolError)));
    let r3 = parse_streams_page("} broken", NOW);
    assert!(matches!(r3, Err(AppError::ProtocolError)));
}

#[test]
fn streams_page_malformed_record_aborts_with_error() {
    let body = format!("{{\"data\":[{},{{\"language\":\"en\"}}]}}", record_json());
    let r = parse_streams_page(&body, NOW);
    assert!(matches!(r, Err(AppError::DecodeError(_))));
}

#[test]
fn error_messages_are_single_lines() {
    assert_eq!(
        AppError::ConfigError("TWITCH_CLIENT_ID".to_string()).message(),
        "Missing credential: TWITCH_CLIENT_ID"
    );
    assert_eq!(
        AppError::NetworkError("connection refused".to_string()).message(),
        "Network error: connection refused"
    );
    assert_eq!(AppError::ProtocolError.message(), "Malformed response");
    assert_eq!(
        AppError::DecodeError("title".to_string()).message(),
        "Malformed stream record: bad field title"
    );
}

#[test]
fn format_row_builds_five_cells() {
    let e = Entry {
        lang: "en".to_string(),
        display_name: "Foo".to_string(),
        title: "a\tb\u{7f}c".to_string(),
        viewer_count: 42,
        live_duration: "01:30".to_string(),
    };
    let row = e.format_row();
    assert_eq!(row.len(), 5);
    assert_eq!(row[0], "en");
    assert_eq!(row[1], "https://twitch.tv/Foo");
    assert_eq!(row[2], "42 viewers");
    assert_eq!(row[3], "01:30");
    assert_eq!(row[4], "a b c");
}
