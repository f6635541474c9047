use i3_helper::events::{classify_event, EventKind, WindowChange};
use i3_helper::mode::{
    mode_icon, mode_label, next_mode, parse_mode, MODE_ALT, MODE_HORIZ, MODE_VERT,
};
use i3_helper::paths::{mode_path, pid_path, request_path};
use i3_helper::text::{escape_quotes, i64_to_string, parse_leading_number, parse_pid};

#[test]
fn mode_tokens_parse() {
    assert_eq!(parse_mode("a"), Some(MODE_ALT));
    assert_eq!(parse_mode("alternating"), Some(MODE_ALT));
    assert_eq!(parse_mode("v"), Some(MODE_VERT));
    assert_eq!(parse_mode("vertical"), Some(MODE_VERT));
    assert_eq!(parse_mode("h"), Some(MODE_HORIZ));
    assert_eq!(parse_mode("horizontal"), Some(MODE_HORIZ));
    assert_eq!(parse_mode("Horizontal"), None);
    assert_eq!(parse_mode(""), None);
    assert_eq!(parse_mode("sideways"), None);
}

#[test]
fn mode_labels_and_icons() {
    assert_eq!(mode_label(MODE_ALT), "alternating");
    assert_eq!(mode_label(MODE_VERT), "vertical");
    assert_eq!(mode_label(MODE_HORIZ), "horizontal");
    assert_eq!(mode_label(9), "unknown");
    assert_eq!(mode_icon(MODE_ALT), "\u{21D4} Alternating");
    assert_eq!(mode_icon(MODE_VERT), "\u{2195} Vertical");
    assert_eq!(mode_icon(MODE_HORIZ), "\u{2194} Horizontal");
    assert_eq!(mode_icon(9), "? Unknown");
}

#[test]
fn cycling_three_times_returns_to_start() {
    let mut m = MODE_ALT;
    m = next_mode(m, None);
    assert_eq!(m, MODE_VERT);
    m = next_mode(m, None);
    assert_eq!(m, MODE_HORIZ);
    m = next_mode(m, None);
    assert_eq!(m, MODE_ALT);
}

#[test]
fn explicit_request_bypasses_cycling() {
    for current in [MODE_ALT, MODE_VERT, MODE_HORIZ] {
        assert_eq!(next_mode(current, Some("h")), MODE_HORIZ);
        assert_eq!(next_mode(current, Some("alternating")), MODE_ALT);
    }
    // An invalid request falls back to cycling.
    assert_eq!(next_mode(MODE_ALT, Some("bogus")), MODE_VERT);
    assert_eq!(next_mode(MODE_HORIZ, Some("")), MODE_ALT);
}

#[test]
fn runtime_file_paths() {
    assert_eq!(pid_path("/run/user/1000"), "/run/user/1000/i3-helper.pid");
    assert_eq!(mode_path("/tmp"), "/tmp/i3-tiling-mode");
    assert_eq!(request_path("/tmp"), "/tmp/i3-helper.request");
}

#[test]
fn escaping_does_real_work() {
    assert_eq!(escape_quotes("a\"b\"c"), "a\\\"b\\\"c");
    assert_eq!(escape_quotes("plain"), "plain");
}

#[test]
fn decimal_rendering() {
    assert_eq!(i64_to_string(0), "0");
    assert_eq!(i64_to_string(42), "42");
    assert_eq!(i64_to_string(-1), "-1");
    assert_eq!(i64_to_string(i64::MAX), "9223372036854775807");
    assert_eq!(i64_to_string(i64::MIN), "-9223372036854775808");
}

#[test]
fn leading_numbers_parse_like_the_legacy_convention() {
    assert_eq!(parse_leading_number("12abc"), Some(12));
    assert_eq!(parse_leading_number("07"), Some(7));
    assert_eq!(parse_leading_number("0"), Some(0));
    assert_eq!(parse_leading_number("abc"), None);
    assert_eq!(parse_leading_number(""), None);
    assert_eq!(parse_leading_number(" 5"), None);
    // A run too long for the machine range fails the parse entirely.
    assert_eq!(parse_leading_number("99999999999999999999: x"), None);
    assert_eq!(parse_leading_number("9223372036854775807rest"), Some(i64::MAX));
}

#[test]
fn pid_file_texts_parse() {
    assert_eq!(parse_pid("123"), Some(123));
    assert_eq!(parse_pid("123\n"), Some(123));
    assert_eq!(parse_pid("  42  "), Some(42));
    assert_eq!(parse_pid("0"), None);
    assert_eq!(parse_pid("-5"), None);
    assert_eq!(parse_pid(""), None);
    assert_eq!(parse_pid("12a"), None);
    assert_eq!(parse_pid("2147483647"), Some(i32::MAX));
    assert_eq!(parse_pid("2147483648"), None);
}

#[test]
fn events_classify_into_their_two_duties() {
    assert_eq!(classify_event(EventKind::Window(WindowChange::Focus)), (true, true));
    assert_eq!(classify_event(EventKind::Window(WindowChange::New)), (false, true));
    assert_eq!(classify_event(EventKind::Window(WindowChange::Close)), (false, true));
    assert_eq!(classify_event(EventKind::Window(WindowChange::Move)), (false, true));
    assert_eq!(classify_event(EventKind::Window(WindowChange::Title)), (false, true));
    assert_eq!(classify_event(EventKind::Window(WindowChange::Other)), (false, false));
    assert_eq!(classify_event(EventKind::Workspace), (false, true));
    assert_eq!(classify_event(EventKind::Other), (false, false));
}
