use desk_core::progress::{progress_step, ProgressThrottle, UNKNOWN_SIZE_STEP};
use desk_core::reporter::{connection_state_str, ConnectionState};

#[test]
fn connection_state_strings() {
    assert_eq!(connection_state_str(ConnectionState::Disconnected), "disconnected");
    assert_eq!(connection_state_str(ConnectionState::Connecting), "connecting");
    assert_eq!(connection_state_str(ConnectionState::Connected), "connected");
}

#[test]
fn progress_step_is_one_percent() {
    assert_eq!(progress_step(None), 256 * 1024);
    assert_eq!(progress_step(None), UNKNOWN_SIZE_STEP);
    assert_eq!(progress_step(Some(10_000)), 100);
    assert_eq!(progress_step(Some(199)), 1);
    assert_eq!(progress_step(Some(50)), 1);
    assert_eq!(progress_step(Some(0)), 1);
}

#[test]
fn progress_reported_at_steps() {
    let mut p = ProgressThrottle::new();
    // 1% of 10_000 is 100 bytes
    assert_eq!(p.on_chunk(40, Some(10_000)), None);
    assert_eq!(p.on_chunk(40, Some(10_000)), None);
    assert_eq!(p.on_chunk(40, Some(10_000)), Some(120));
    assert_eq!(p.on_chunk(99, Some(10_000)), None);
    assert_eq!(p.on_chunk(1, Some(10_000)), Some(220));
    assert_eq!(p.on_chunk(1000, Some(10_000)), Some(1220));
}

#[test]
fn progress_without_length_uses_256k() {
    let mut p = ProgressThrottle::new();
    assert_eq!(p.on_chunk(200 * 1024, None), None);
    assert_eq!(p.on_chunk(56 * 1024, None), Some(256 * 1024));
    assert_eq!(p.on_chunk(1, None), None);
}
