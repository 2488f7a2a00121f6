use ticksim::actor::SpawnError;
use ticksim::animation::AnimationState;

#[test]
fn one_period_advances_one_frame() {
    let mut st = AnimationState::new(0, 5, 0, 100_000).unwrap();
    st.advance(100_000); // 0.1 s
    assert_eq!(st.current_frame, 1);
    assert_eq!(st.elapsed_micros, 0);
}

#[test]
fn repeated_ticks_wrap_after_six_periods() {
    // 0.65 s cumulative in 0.1 s ticks plus a 0.05 s tick: six full
    // periods, so the frame returns to the start of the 0..=5 cycle.
    let mut st = AnimationState::new(0, 5, 0, 100_000).unwrap();
    for _ in 0..6 {
        st.advance(100_000);
    }
    st.advance(50_000);
    assert_eq!(st.current_frame, (0 + 6) % 6);
    assert_eq!(st.elapsed_micros, 50_000);
}

#[test]
fn single_update_carries_the_remainder() {
    // The same 0.65 s delivered in one update: the carry keeps the
    // 0.05 s remainder instead of dropping it.
    let mut st = AnimationState::new(0, 5, 0, 100_000).unwrap();
    st.advance(650_000);
    assert_eq!(st.current_frame, (0 + 6) % 6);
    assert_eq!(st.elapsed_micros, 50_000);
}

#[test]
fn frame_stays_in_range_across_many_ticks() {
    let mut st = AnimationState::new(2, 7, 4, 30_000).unwrap();
    for _ in 0..1000 {
        assert!(st.frame_start <= st.current_frame && st.current_frame <= st.frame_end);
        st.advance(7_919);
        assert!(st.frame_start <= st.current_frame && st.current_frame <= st.frame_end);
    }
}

#[test]
fn idle_range_wraps_to_itself() {
    // frame_start == frame_end: the timer still ticks, with no visible
    // frame change.
    let mut st = AnimationState::new(3, 3, 3, 100_000).unwrap();
    st.advance(250_000);
    assert_eq!(st.current_frame, 3);
    assert_eq!(st.elapsed_micros, 50_000);
}

#[test]
fn rejects_inverted_frame_range() {
    assert_eq!(
        AnimationState::new(5, 2, 5, 100_000),
        Err(SpawnError::FrameRangeInverted)
    );
}

#[test]
fn rejects_initial_frame_outside_range() {
    assert_eq!(
        AnimationState::new(1, 5, 0, 100_000),
        Err(SpawnError::FrameOutOfRange)
    );
}

#[test]
fn rejects_zero_period() {
    assert_eq!(AnimationState::new(0, 5, 0, 0), Err(SpawnError::ZeroPeriod));
}
