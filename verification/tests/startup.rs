use prune::platform::macos::startup::pretty_name;
use prune::platform::startup_approved::{is_enabled, with_state, VALUE_LEN};
use prune::platform::windows::rules::{claimable, specific_enough};

#[test]
fn pretty_name_drops_reverse_dns_prefix() {
    assert_eq!(
        pretty_name("com.google.keystone.agent", "/x/com.google.keystone.agent.plist"),
        "Keystone Agent"
    );
    assert_eq!(pretty_name("", "/x/my-helper.plist"), "My Helper");
}

#[test]
fn reads_the_states_windows_writes() {
    // Task Manager's own values.
    assert_eq!(is_enabled(&[2, 0, 0, 0, 0, 0, 0, 0, 0, 0, 0, 0]), Some(true));
    assert_eq!(is_enabled(&[3, 0, 0, 0, 0, 0, 0, 0, 0, 0, 0, 0]), Some(false));
    // Values Windows has been observed writing after a toggle.
    assert_eq!(is_enabled(&[6]), Some(true));
    assert_eq!(is_enabled(&[7]), Some(false));
    assert_eq!(is_enabled(&[9]), Some(false));
    // No record at all: the caller decides, and treats it as enabled.
    assert_eq!(is_enabled(&[]), None);
}

#[test]
fn writes_a_full_length_value() {
    let disabled = with_state(None, false);
    assert_eq!(disabled.len(), VALUE_LEN);
    assert_eq!(is_enabled(&disabled), Some(false));

    let enabled = with_state(None, true);
    assert_eq!(enabled.len(), VALUE_LEN);
    assert_eq!(is_enabled(&enabled), Some(true));
}

#[test]
fn round_trips_through_both_states() {
    let mut value = with_state(None, true);
    for expected in [false, true, false] {
        value = with_state(Some(&value), expected);
        assert_eq!(is_enabled(&value), Some(expected));
    }
}

#[test]
fn pads_short_values_and_keeps_longer_tails() {
    let short = with_state(Some(&[3, 9]), true);
    assert_eq!(short.len(), VALUE_LEN);
    assert_eq!(is_enabled(&short), Some(true));

    let long = with_state(Some(&[3; 20]), false);
    assert_eq!(long.len(), 20, "a longer value keeps its tail");
    assert_eq!(is_enabled(&long), Some(false));
    assert_eq!(&long[1..VALUE_LEN], &[0u8; VALUE_LEN - 1]);
}

#[test]
fn clears_the_timestamp_so_windows_accepts_the_change() {
    let stale = [2u8, 0, 0, 0, 0xde, 0xad, 0xbe, 0xef, 1, 2, 3, 4];
    let written = with_state(Some(&stale), false);
    assert_eq!(&written[4..VALUE_LEN], &[0u8; 8]);
}

#[test]
fn a_name_with_a_separator_in_it_cannot_reach_outside_appdata() {
    // The registry is vendor-supplied text, so a DisplayName is not a safe path component.
    for hostile in [r"..\..\Windows", "Foo/Bar", r"Foo\Bar"] {
        assert!(!claimable(hostile), "{hostile} must not be claimable");
        assert!(!specific_enough(hostile), "{hostile} is not a plain name");
    }
}

#[test]
fn the_last_write_decides_the_state() {
    let first = with_state(Some(&[2, 1, 1, 1, 5, 5, 5, 5, 5, 5, 5, 5, 7]), false);
    let second = with_state(Some(&first), true);
    assert_eq!(is_enabled(&second), Some(true));
    assert_eq!(second.len(), 13);
    assert_eq!(second[12], 7);
}
