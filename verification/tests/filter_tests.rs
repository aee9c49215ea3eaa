use streamlist::entry::Entry;
use streamlist::filter::exclusions;

fn entry(lang: &str, name: &str, title: &str) -> Entry {
    Entry {
        lang: lang.to_string(),
        display_name: name.to_string(),
        title: title.to_string(),
        viewer_count: 1,
        live_duration: String::new(),
    }
}

fn terms(ts: &[&str]) -> Vec<String> {
    ts.iter().map(|t| t.to_string()).collect()
}

#[test]
fn whole_word_matches_exact_token() {
    let e = entry("en", "chan", "abc 123 abc");
    assert!(e.matches(true, false, &terms(&["abc"]), &Vec::new(), &None));
}

#[test]
fn whole_word_rejects_partial_token() {
    let e = entry("en", "chan", "abc 123 abc");
    assert!(!e.matches(true, false, &terms(&["ab"]), &Vec::new(), &None));
}

#[test]
fn whole_word_folds_title_case() {
    let e = entry("en", "chan", "Rust ROCKS here");
    assert!(e.matches(true, false, &terms(&["rocks"]), &Vec::new(), &None));
    // terms are taken as given: an uppercase term never meets a folded token
    assert!(!e.matches(true, false, &terms(&["ROCKS"]), &Vec::new(), &None));
}

#[test]
fn whole_word_splits_on_any_non_alphabetic() {
    let e = entry("en", "chan", "I love C++ and c#!");
    // the lone letter c is a token between punctuation
    assert!(e.matches(true, false, &terms(&["c"]), &Vec::new(), &None));
    assert!(!e.matches(true, false, &terms(&["c++"]), &Vec::new(), &None));
}

#[test]
fn excluded_name_never_matches() {
    let e = entry("en", "SomeChannel", "anything at all");
    let excl = vec!["somechannel".to_string()];
    assert!(!e.matches(false, false, &terms(&[""]), &excl, &None));
    assert!(!e.matches(true, false, &terms(&["anything"]), &excl, &None));
    assert!(!e.matches(false, true, &terms(&[""]), &excl, &Some("en".to_string())));
}

#[test]
fn unexcluded_name_matches_normally() {
    let e = entry("en", "OtherChannel", "anything at all");
    let excl = vec!["somechannel".to_string()];
    assert!(e.matches(false, false, &terms(&[""]), &excl, &None));
}

#[test]
fn empty_term_matches_every_title() {
    let excl: Vec<String> = Vec::new();
    for title in ["", "anything", "Ünïcode £itle", "123"] {
        let e = entry("en", "chan", title);
        assert!(e.matches(false, false, &terms(&[""]), &excl, &None));
    }
}

#[test]
fn substring_match_folds_title_only() {
    let e = entry("en", "chan", "Learning RUST today");
    assert!(e.matches(false, false, &terms(&["rust"]), &Vec::new(), &None));
    assert!(!e.matches(false, false, &terms(&["RUST"]), &Vec::new(), &None));
}

#[test]
fn all_mode_requires_every_term() {
    let e = entry("en", "chan", "rust game night");
    assert!(e.matches(false, true, &terms(&["rust", "game"]), &Vec::new(), &None));
    assert!(!e.matches(false, true, &terms(&["rust", "paris"]), &Vec::new(), &None));
}

#[test]
fn any_mode_needs_one_term() {
    let e = entry("en", "chan", "rust game night");
    assert!(e.matches(false, false, &terms(&["paris", "game"]), &Vec::new(), &None));
    assert!(!e.matches(false, false, &terms(&["paris", "tokyo"]), &Vec::new(), &None));
}

#[test]
fn language_filter_compares_exactly() {
    let e = entry("en", "chan", "some title");
    assert!(e.matches(false, false, &terms(&[""]), &Vec::new(), &Some("en".to_string())));
    assert!(!e.matches(false, false, &terms(&[""]), &Vec::new(), &Some("fr".to_string())));
}

#[test]
fn exclusions_merge_and_lowercase() {
    let r = exclusions(
        Some(vec!["Foo".to_string(), "BAR".to_string()]),
        Some("Baz,quX".to_string()),
    );
    assert_eq!(r, vec!["foo", "bar", "baz", "qux"]);
}

#[test]
fn exclusions_keep_empty_segments() {
    let r = exclusions(None, Some("a,,b".to_string()));
    assert_eq!(r, vec!["a", "", "b"]);
}

#[test]
fn exclusions_empty_inputs() {
    let r = exclusions(None, None);
    assert!(r.is_empty());
    let r2 = exclusions(Some(Vec::new()), None);
    assert!(r2.is_empty());
}
