use vibe_core::frontend::{DeviceFocusState, BACKGROUND_POLL_INTERVAL_MS, FOCUSED_POLL_INTERVAL_MS};
use vibe_core::proc::killers::{signal_succeeded, UnixKiller};

#[test]
fn focus_picks_the_poll_interval() {
    assert!(DeviceFocusState::default().focused);
    assert_eq!(DeviceFocusState { focused: true }.poll_interval_ms(), FOCUSED_POLL_INTERVAL_MS);
    assert_eq!(DeviceFocusState { focused: false }.poll_interval_ms(), BACKGROUND_POLL_INTERVAL_MS);
    assert_eq!(FOCUSED_POLL_INTERVAL_MS, 2000);
    assert_eq!(BACKGROUND_POLL_INTERVAL_MS, 10000);
}

#[test]
fn a_gone_group_counts_as_signalled() {
    assert!(signal_succeeded(0, None, 3));
    assert!(signal_succeeded(-1, Some(3), 3));
    assert!(!signal_succeeded(-1, Some(1), 3));
    assert!(!signal_succeeded(-1, None, 3));
    assert_eq!(UnixKiller::new(4242).pgid, 4242);
}
