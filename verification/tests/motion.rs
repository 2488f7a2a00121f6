use ticksim::actor::MICROPIXELS_PER_PIXEL;
use ticksim::motion::step_position;

#[test]
fn one_step_adds_velocity_times_delta() {
    // 500 px/s for 0.1 s moves exactly 50 px.
    let x = step_position(0, 500, 100_000);
    assert_eq!(x, 50 * MICROPIXELS_PER_PIXEL);
}

#[test]
fn position_is_linear_in_tick_count() {
    // After N equal ticks the position is exactly
    // initial + velocity * dt * N; the fixed-point units make the
    // equality exact rather than within a floating-point tolerance.
    let start: i64 = 100 * MICROPIXELS_PER_PIXEL;
    let velocity: i64 = 500; // 500 px/s
    let dt: u64 = 100_000; // 0.1 s
    let ticks: i64 = 25;
    let mut x = start;
    for _ in 0..ticks {
        x = step_position(x, velocity, dt);
    }
    assert_eq!(x, start + velocity * (dt as i64) * ticks);
}

#[test]
fn negative_velocity_moves_left() {
    // A zombie drifting at -10 px/s loses one pixel per 0.1 s tick.
    let x = step_position(150 * MICROPIXELS_PER_PIXEL, -10, 100_000);
    assert_eq!(x, 149 * MICROPIXELS_PER_PIXEL);
}

#[test]
fn zero_velocity_is_stationary() {
    let x = step_position(42, 0, 1_000_000);
    assert_eq!(x, 42);
}
