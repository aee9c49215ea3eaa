use streamlist::entry::Entry;
use streamlist::pagination::{consume_page, consume_pages, Page, Query};
use streamlist::table::{Align, Table};

fn entry(name: &str, title: &str) -> Entry {
    Entry {
        lang: "en".to_string(),
        display_name: name.to_string(),
        title: title.to_string(),
        viewer_count: 3,
        live_duration: "00:10".to_string(),
    }
}

fn show_all_query() -> Query {
    Query {
        whole_word: false,
        require_all: false,
        terms: vec![String::new()],
        excluded: Vec::new(),
        lang: None,
    }
}

#[test]
fn pagination_consumes_until_missing_cursor() {
    let pages = vec![
        Page { entries: vec![entry("a", "t1"), entry("b", "t2")], cursor: Some("c1".to_string()) },
        Page { entries: vec![entry("c", "t3")], cursor: Some("c2".to_string()) },
        Page { entries: vec![entry("d", "t4"), entry("e", "t5")], cursor: None },
    ];
    let mut table = Table::new();
    let mut total: usize = 0;
    let consumed = consume_pages(&mut table, &mut total, &pages, &show_all_query());
    assert_eq!(consumed, 3);
    assert_eq!(total, 5);
    assert_eq!(table.len(), 5);
}

#[test]
fn pagination_stops_at_first_missing_cursor() {
    let pages = vec![
        Page { entries: vec![entry("a", "t1")], cursor: None },
        Page { entries: vec![entry("b", "t2")], cursor: Some("never".to_string()) },
    ];
    let mut table = Table::new();
    let mut total: usize = 0;
    let consumed = consume_pages(&mut table, &mut total, &pages, &show_all_query());
    assert_eq!(consumed, 1);
    assert_eq!(total, 1);
    assert_eq!(table.len(), 1);
}

#[test]
fn empty_cursor_ends_pagination() {
    let pages = vec![
        Page { entries: vec![entry("a", "t1")], cursor: Some(String::new()) },
        Page { entries: vec![entry("b", "t2")], cursor: Some("more".to_string()) },
    ];
    let mut table = Table::new();
    let mut total: usize = 0;
    let consumed = consume_pages(&mut table, &mut total, &pages, &show_all_query());
    assert_eq!(consumed, 1);
    assert_eq!(total, 1);
    assert_eq!(table.len(), 1);
}

#[test]
fn consume_page_maps_empty_cursor_to_none() {
    let page = Page { entries: Vec::new(), cursor: Some(String::new()) };
    let mut table = Table::new();
    let mut total: usize = 0;
    let next = consume_page(&mut table, &mut total, &page, &show_all_query());
    assert_eq!(next, None);
}

#[test]
fn consume_page_counts_all_and_keeps_matches() {
    let page = Page {
        entries: vec![entry("Keep", "rust stream"), entry("Drop", "cooking")],
        cursor: Some("next".to_string()),
    };
    let q = Query {
        whole_word: false,
        require_all: false,
        terms: vec!["rust".to_string()],
        excluded: Vec::new(),
        lang: None,
    };
    let mut table = Table::new();
    let mut total: usize = 0;
    let next = consume_page(&mut table, &mut total, &page, &q);
    assert_eq!(next, Some("next".to_string()));
    assert_eq!(total, 2);
    assert_eq!(table.len(), 1);
}

#[test]
fn filtering_applies_across_pages() {
    let pages = vec![
        Page {
            entries: vec![entry("Ignored", "rust stream"), entry("kept", "rust too")],
            cursor: Some("c".to_string()),
        },
        Page { entries: vec![entry("other", "python only")], cursor: None },
    ];
    let q = Query {
        whole_word: false,
        require_all: false,
        terms: vec!["rust".to_string()],
        excluded: vec!["ignored".to_string()],
        lang: None,
    };
    let mut table = Table::new();
    let mut total: usize = 0;
    let consumed = consume_pages(&mut table, &mut total, &pages, &q);
    assert_eq!(consumed, 2);
    assert_eq!(total, 3);
    assert_eq!(table.len(), 1);
}

#[test]
fn rendered_rows_follow_insertion_order() {
    let page = Page {
        entries: vec![entry("Alpha", "first"), entry("Beta", "second")],
        cursor: None,
    };
    let mut table = Table::new();
    table.set_align(2, Align::Right);
    table.set_align(3, Align::Right);
    let mut total: usize = 0;
    consume_page(&mut table, &mut total, &page, &show_all_query());
    let lines = table.render_lines();
    assert_eq!(lines.len(), 2);
    assert_eq!(lines[0], "en | https://twitch.tv/Alpha | 3 viewers | 00:10 | first");
    assert_eq!(lines[1], "en | https://twitch.tv/Beta  | 3 viewers | 00:10 | second");
}
