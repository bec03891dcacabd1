use swarm::naming::{session_base_for_title, unique_session_name};
use swarm::strutil::{parse_u64, parse_u64_digits, u64_to_string};

fn strings(v: &[&str]) -> Vec<String> {
    v.iter().map(|s| s.to_string()).collect()
}

#[test]
fn unique_name_suffixes_on_collision() {
    // Live sessions named with base "foo" and "foo-2" already exist:
    // requesting "foo" again yields "foo-3".
    let existing = strings(&["swarm-foo", "swarm-foo-2"]);
    assert_eq!(unique_session_name("foo", &existing), "foo-3");
}

#[test]
fn unique_name_takes_base_when_free() {
    let existing = strings(&["swarm-bar", "swarm-baz-2"]);
    assert_eq!(unique_session_name("foo", &existing), "foo");
}

#[test]
fn unique_name_fills_smallest_gap() {
    let existing = strings(&["swarm-foo", "swarm-foo-5"]);
    assert_eq!(unique_session_name("foo", &existing), "foo-2");
}

#[test]
fn unique_name_ignores_noncanonical_suffixes() {
    // "foo-02" is not the canonical spelling of any candidate, so it
    // blocks nothing.
    let existing = strings(&["swarm-foo", "swarm-foo-02"]);
    assert_eq!(unique_session_name("foo", &existing), "foo-2");
}

#[test]
fn decimal_round_trip() {
    assert_eq!(u64_to_string(0), "0");
    assert_eq!(u64_to_string(42), "42");
    assert_eq!(u64_to_string(18446744073709551615), "18446744073709551615");
    assert_eq!(parse_u64("42"), Some(42));
    assert_eq!(parse_u64("0"), Some(0));
    assert_eq!(parse_u64("042"), None);
    assert_eq!(parse_u64(""), None);
    assert_eq!(parse_u64("4x2"), None);
    assert_eq!(parse_u64("18446744073709551616"), None);
    assert_eq!(parse_u64_digits("042"), Some(42));
    assert_eq!(parse_u64_digits("99999999999999999999"), None);
}

#[test]
fn slug_base_for_title() {
    assert_eq!(session_base_for_title("Fix the Parser!"), "fix-the-parser");
    let long = "a very long title that goes on and on and on and needs cutting down";
    let base = session_base_for_title(long);
    assert_eq!(base.len(), 50);
    assert!(base.chars().all(|c| c.is_ascii_lowercase() || c.is_ascii_digit() || c == '-'));
}
