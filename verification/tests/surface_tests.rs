use termwin::surface::{
    ConfigureOutcome, ProtocolViolation, SurfaceError, SurfaceLifecycle, SurfaceState,
    DEFAULT_HEIGHT, DEFAULT_WIDTH,
};
use termwin::vec2::Vec2;

fn bound() -> SurfaceLifecycle {
    let mut s = SurfaceLifecycle::with_default_size();
    s.bind_shell().unwrap();
    s
}

#[test]
fn default_size_is_100_by_100() {
    assert_eq!(DEFAULT_WIDTH, 100);
    assert_eq!(DEFAULT_HEIGHT, 100);
    let s = SurfaceLifecycle::with_default_size();
    assert_eq!(s.size(), Vec2::new(100, 100));
    assert_eq!(s.state(), SurfaceState::Created);
    assert_eq!(s.pending_count(), 0);
    assert!(!s.is_closed());
}

#[test]
fn size_without_area_gives_no_drawable() {
    assert_eq!(SurfaceLifecycle::new(0, 0).err(), Some(SurfaceError::DegenerateSize));
    assert_eq!(SurfaceLifecycle::new(0, 10).err(), Some(SurfaceError::DegenerateSize));
    assert_eq!(SurfaceLifecycle::new(10, 0).err(), Some(SurfaceError::DegenerateSize));
    assert_eq!(SurfaceLifecycle::new(-1, 10).err(), Some(SurfaceError::DegenerateSize));
    let s = SurfaceLifecycle::new(640, 480).unwrap();
    assert_eq!(s.size(), Vec2::new(640, 480));
}

#[test]
fn lifecycle_runs_from_created_to_ready() {
    let mut s = SurfaceLifecycle::with_default_size();
    assert_eq!(s.state(), SurfaceState::Created);
    assert_eq!(s.bind_shell(), Ok(()));
    assert_eq!(s.state(), SurfaceState::ShellBound);
    assert_eq!(s.commit(), Ok(()));
    assert_eq!(s.state(), SurfaceState::ShellBound);
    assert_eq!(s.configure(7, 300, 200), Ok(ConfigureOutcome::Resized(Vec2::new(300, 200))));
    assert_eq!(s.state(), SurfaceState::ConfigurePending(7));
    assert_eq!(s.ack_configure(7), Ok(()));
    assert_eq!(s.state(), SurfaceState::ConfigurePending(7));
    assert_eq!(s.commit(), Ok(()));
    assert_eq!(s.state(), SurfaceState::Ready);
    assert_eq!(s.configure(8, 300, 200), Ok(ConfigureOutcome::Unchanged));
    assert_eq!(s.state(), SurfaceState::ConfigurePending(8));
    s.close();
    assert_eq!(s.state(), SurfaceState::Closed);
    assert!(s.is_closed());
}

#[test]
fn binding_twice_is_a_violation() {
    let mut s = bound();
    assert_eq!(s.bind_shell(), Err(ProtocolViolation::UnexpectedEvent));
    assert_eq!(s.state(), SurfaceState::ShellBound);
}

#[test]
fn configure_before_binding_is_a_violation() {
    let mut s = SurfaceLifecycle::with_default_size();
    assert_eq!(s.configure(1, 10, 10), Err(ProtocolViolation::UnexpectedEvent));
    assert_eq!(s.state(), SurfaceState::Created);
    assert_eq!(s.pending_count(), 0);
}

#[test]
fn configure_with_zero_size_keeps_the_default() {
    let mut s = bound();
    assert_eq!(s.configure(1, 0, 0), Ok(ConfigureOutcome::Unchanged));
    assert_eq!(s.size(), Vec2::new(100, 100));
    assert_eq!(s.state(), SurfaceState::ConfigurePending(1));
}

#[test]
fn configure_with_one_zero_keeps_the_size() {
    let mut s = bound();
    assert_eq!(s.configure(1, 0, 50), Ok(ConfigureOutcome::Unchanged));
    assert_eq!(s.size(), Vec2::new(100, 100));
    assert_eq!(s.ack_configure(1), Ok(()));
    assert_eq!(s.configure(2, 50, 0), Ok(ConfigureOutcome::Unchanged));
    assert_eq!(s.size(), Vec2::new(100, 100));
}

#[test]
fn configure_with_same_size_changes_nothing() {
    let mut s = bound();
    assert_eq!(s.configure(1, 100, 100), Ok(ConfigureOutcome::Unchanged));
    assert_eq!(s.size(), Vec2::new(100, 100));
}

#[test]
fn configure_with_new_size_resizes() {
    let mut s = bound();
    assert_eq!(s.configure(1, 100, 101), Ok(ConfigureOutcome::Resized(Vec2::new(100, 101))));
    assert_eq!(s.size(), Vec2::new(100, 101));
}

#[test]
fn configure_with_negative_size_is_malformed() {
    let mut s = bound();
    assert_eq!(s.configure(1, -1, 10), Err(ProtocolViolation::MalformedConfigure));
    assert_eq!(s.configure(1, 10, -1), Err(ProtocolViolation::MalformedConfigure));
    assert_eq!(s.pending_count(), 0);
    assert_eq!(s.size(), Vec2::new(100, 100));
    assert_eq!(s.state(), SurfaceState::ShellBound);
}

#[test]
fn configure_with_waiting_serial_is_a_duplicate() {
    let mut s = bound();
    assert_eq!(s.configure(1, 10, 10), Ok(ConfigureOutcome::Resized(Vec2::new(10, 10))));
    assert_eq!(s.configure(1, 20, 20), Err(ProtocolViolation::DuplicateSerial));
    assert_eq!(s.size(), Vec2::new(10, 10));
    assert_eq!(s.pending_count(), 1);
}

#[test]
fn acknowledgments_follow_arrival_order() {
    let mut s = bound();
    s.configure(1, 10, 10).unwrap();
    s.configure(2, 20, 20).unwrap();
    s.configure(3, 30, 30).unwrap();
    assert_eq!(s.pending_count(), 3);
    assert_eq!(s.ack_configure(2), Err(ProtocolViolation::UnknownSerial));
    assert_eq!(s.ack_configure(3), Err(ProtocolViolation::UnknownSerial));
    assert_eq!(s.pending_count(), 3);
    assert_eq!(s.ack_configure(1), Ok(()));
    assert_eq!(s.ack_configure(3), Err(ProtocolViolation::UnknownSerial));
    assert_eq!(s.ack_configure(2), Ok(()));
    assert_eq!(s.ack_configure(3), Ok(()));
    assert_eq!(s.pending_count(), 0);
}

#[test]
fn acknowledging_twice_is_refused() {
    let mut s = bound();
    s.configure(5, 10, 10).unwrap();
    assert_eq!(s.ack_configure(5), Ok(()));
    assert_eq!(s.ack_configure(5), Err(ProtocolViolation::UnknownSerial));
}

#[test]
fn acknowledging_a_serial_never_received_is_refused() {
    let mut s = bound();
    assert_eq!(s.ack_configure(9), Err(ProtocolViolation::UnknownSerial));
    s.configure(5, 10, 10).unwrap();
    assert_eq!(s.ack_configure(9), Err(ProtocolViolation::UnknownSerial));
    assert_eq!(s.pending_count(), 1);
}

#[test]
fn commit_before_acknowledgment_is_a_violation() {
    let mut s = bound();
    s.configure(5, 10, 10).unwrap();
    assert_eq!(s.commit(), Err(ProtocolViolation::CommitBeforeAck));
    assert_eq!(s.state(), SurfaceState::ConfigurePending(5));
    s.ack_configure(5).unwrap();
    assert_eq!(s.commit(), Ok(()));
    assert_eq!(s.state(), SurfaceState::Ready);
}

#[test]
fn acknowledgment_without_commit_does_not_make_ready() {
    let mut s = bound();
    s.configure(5, 10, 10).unwrap();
    s.ack_configure(5).unwrap();
    assert_eq!(s.state(), SurfaceState::ConfigurePending(5));
}

#[test]
fn closed_surface_ignores_configure_and_commit() {
    let mut s = bound();
    s.configure(5, 10, 10).unwrap();
    s.close();
    assert_eq!(s.configure(6, 50, 50), Ok(ConfigureOutcome::Ignored));
    assert_eq!(s.size(), Vec2::new(10, 10));
    assert_eq!(s.commit(), Ok(()));
    assert_eq!(s.state(), SurfaceState::Closed);
}

#[test]
fn close_before_binding() {
    let mut s = SurfaceLifecycle::with_default_size();
    s.close();
    assert_eq!(s.state(), SurfaceState::Closed);
    assert_eq!(s.bind_shell(), Err(ProtocolViolation::UnexpectedEvent));
}
