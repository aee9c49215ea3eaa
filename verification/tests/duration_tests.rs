use streamlist::duration::duration_hhmm;
use streamlist::numfmt::{u64_dec_chars, u64_dec_chars_pad2};
use streamlist::text::string_from_chars;

// 2024-05-05T12:00:00Z as seconds since the Unix epoch
const START: i64 = 1714910400;

#[test]
fn ninety_minutes_renders_01_30() {
    let r = duration_hhmm("2024-05-05T12:00:00Z", START + 90 * 60);
    assert_eq!(r, "01:30");
}

#[test]
fn unparsable_timestamp_renders_empty() {
    assert_eq!(duration_hhmm("not a timestamp", START), "");
    assert_eq!(duration_hhmm("", START), "");
}

#[test]
fn hours_exceed_two_digits_unwrapped() {
    let r = duration_hhmm("2024-05-05T12:00:00Z", START + 150 * 3600);
    assert_eq!(r, "150:00");
}

#[test]
fn under_one_hour_zero_padded() {
    let r = duration_hhmm("2024-05-05T12:00:00Z", START + 59 * 60);
    assert_eq!(r, "00:59");
}

#[test]
fn future_start_clamps_to_zero() {
    let r = duration_hhmm("2024-05-05T12:00:00Z", START - 600);
    assert_eq!(r, "00:00");
}

#[test]
fn relaxed_timestamp_separator_accepted() {
    let r = duration_hhmm("2024-05-05 12:00:00+00:00", START + 60);
    assert_eq!(r, "00:01");
}

#[test]
fn decimal_rendering_exact() {
    assert_eq!(string_from_chars(&u64_dec_chars(0)), "0");
    assert_eq!(string_from_chars(&u64_dec_chars(7)), "7");
    assert_eq!(string_from_chars(&u64_dec_chars(12345)), "12345");
    assert_eq!(string_from_chars(&u64_dec_chars(1000)), "1000");
}

#[test]
fn two_digit_padding_exact() {
    assert_eq!(string_from_chars(&u64_dec_chars_pad2(0)), "00");
    assert_eq!(string_from_chars(&u64_dec_chars_pad2(7)), "07");
    assert_eq!(string_from_chars(&u64_dec_chars_pad2(59)), "59");
    assert_eq!(string_from_chars(&u64_dec_chars_pad2(123)), "123");
}
