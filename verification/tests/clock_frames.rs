use todo_backend::clock::{current_time_frame, format_hms, stream_active, stream_step, StreamState};

#[test]
fn format_hms_midnight() {
    assert_eq!(format_hms(0, 0, 0), "00:00:00");
}

#[test]
fn format_hms_late_evening() {
    assert_eq!(format_hms(23, 59, 9), "23:59:09");
}

#[test]
fn format_hms_mixed_digits() {
    assert_eq!(format_hms(12, 34, 56), "12:34:56");
}

#[test]
fn current_frame_matches_clock_pattern() {
    let frame = current_time_frame();
    let bytes = frame.as_bytes();
    assert_eq!(bytes.len(), 8);
    assert_eq!(bytes[2], b':');
    assert_eq!(bytes[5], b':');
    for i in [0usize, 1, 3, 4, 6, 7] {
        assert!(bytes[i].is_ascii_digit());
    }
    let field = |a: usize, b: usize| (bytes[a] - b'0') * 10 + (bytes[b] - b'0');
    assert!(field(0, 1) < 24);
    assert!(field(3, 4) < 60);
    assert!(field(6, 7) < 60);
}

#[test]
fn failed_send_closes_the_stream() {
    assert_eq!(stream_step(StreamState::Open, false), StreamState::Closed);
}

#[test]
fn successful_send_keeps_the_stream_open() {
    assert_eq!(stream_step(StreamState::Open, true), StreamState::Open);
}

#[test]
fn closed_stream_never_reopens() {
    assert_eq!(stream_step(StreamState::Closed, true), StreamState::Closed);
    assert_eq!(stream_step(StreamState::Closed, false), StreamState::Closed);
}

#[test]
fn stream_active_tracks_state() {
    assert!(stream_active(StreamState::Open));
    assert!(!stream_active(StreamState::Closed));
}
