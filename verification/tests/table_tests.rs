use streamlist::table::{Align, Table};

fn row(cells: [&str; 5]) -> Vec<String> {
    cells.iter().map(|c| c.to_string()).collect()
}

#[test]
fn widths_track_max_over_pushes() {
    let mut t = Table::new();
    t.push(row(["en", "abc", "x", "1", "title one"]));
    t.push(row(["fr", "a", "xxxx", "12", "t"]));
    t.push(row(["de", "ab", "xx", "1", "another title"]));
    assert_eq!(t.width(0), 2);
    assert_eq!(t.width(1), 3);
    assert_eq!(t.width(2), 4);
    assert_eq!(t.width(3), 2);
    assert_eq!(t.len(), 3);
}

#[test]
fn widths_start_at_zero() {
    let t = Table::new();
    assert_eq!(t.width(0), 0);
    assert_eq!(t.width(3), 0);
    assert_eq!(t.len(), 0);
}

#[test]
fn right_alignment_pads_leading_spaces() {
    let mut t = Table::new();
    t.set_align(2, Align::Right);
    t.push(row(["en", "chan", "1234", "x", "last"]));
    t.push(row(["en", "chan", "7", "x", "last"]));
    let lines = t.render_lines();
    assert_eq!(lines[0], "en | chan | 1234 | x | last");
    assert_eq!(lines[1], "en | chan |    7 | x | last");
}

#[test]
fn left_alignment_pads_trailing_spaces() {
    let mut t = Table::new();
    t.push(row(["en", "ab", "x", "y", "t"]));
    t.push(row(["e", "abcd", "x", "y", "t"]));
    let lines = t.render_lines();
    assert_eq!(lines[0], "en | ab   | x | y | t");
    assert_eq!(lines[1], "e  | abcd | x | y | t");
}

#[test]
fn center_alignment_favours_left_cell_placement() {
    let mut t = Table::new();
    t.set_align(1, Align::Center);
    t.push(row(["x", "abcde", "v", "w", "t"]));
    t.push(row(["x", "ab", "v", "w", "t"]));
    let lines = t.render_lines();
    // three spaces to share: one before, two after
    assert_eq!(lines[1], "x |  ab   | v | w | t");
}

#[test]
fn last_column_never_padded() {
    let mut t = Table::new();
    t.push(row(["a", "b", "c", "d", "short"]));
    t.push(row(["a", "b", "c", "d", "a much longer last cell"]));
    let lines = t.render_lines();
    assert!(lines[0].ends_with("| short"));
    assert!(!lines[0].ends_with(" short "));
}

#[test]
fn widths_measured_in_characters_not_bytes() {
    let mut t = Table::new();
    t.push(row(["héllo", "b", "c", "d", "t"]));
    t.push(row(["abcdef", "b", "c", "d", "t"]));
    // "héllo" is 5 characters though 6 bytes
    assert_eq!(t.width(0), 6);
    let lines = t.render_lines();
    assert_eq!(lines[0], "héllo  | b | c | d | t");
}
