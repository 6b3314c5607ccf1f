use tez::state::State;

#[test]
fn state_starts_running_and_drawing() {
    let mut s = State::new((80, 24));
    assert_eq!(s.terminal_size(), (80, 24));
    assert!(s.running());
    assert!(s.should_draw());
}

#[test]
fn skipped_frame_is_skipped_once() {
    let mut s = State::new((80, 24));
    s.skip_frame();
    assert!(!s.should_draw());
    assert!(s.should_draw());
}

#[test]
fn exit_stops_running() {
    let mut s = State::new((1, 2));
    s.exit();
    assert!(!s.running());
    assert_eq!(s.terminal_size(), (1, 2));
}
