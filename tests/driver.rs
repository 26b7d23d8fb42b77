use blockgame::driver::{tick, Tick, TIME_STEP_NS};

const MS: u64 = 1_000_000;

#[test]
fn short_frame_runs_no_step() {
    assert_eq!(tick(0, Some(30 * MS)), Tick { steps: 0, timer_ns: 30 * MS, sleep_ns: 50 * MS });
}

#[test]
fn owed_time_runs_one_step() {
    assert_eq!(tick(70 * MS, Some(30 * MS)), Tick { steps: 1, timer_ns: 20 * MS, sleep_ns: 60 * MS });
}

#[test]
fn exactly_one_step_owed_waits() {
    assert_eq!(tick(TIME_STEP_NS, Some(0)), Tick { steps: 0, timer_ns: TIME_STEP_NS, sleep_ns: 0 });
}

#[test]
fn several_steps_in_one_frame() {
    assert_eq!(tick(40 * MS, Some(250 * MS)), Tick { steps: 3, timer_ns: 50 * MS, sleep_ns: 30 * MS });
}

#[test]
fn forward_jump_catches_up_five_steps_worth() {
    assert_eq!(tick(10 * MS, Some(600 * MS)), Tick { steps: 4, timer_ns: 80 * MS, sleep_ns: 0 });
}

#[test]
fn backward_jump_forgives_owed_time() {
    assert_eq!(tick(50 * MS, None), Tick { steps: 0, timer_ns: 0, sleep_ns: 0 });
}

#[test]
fn short_sleep_is_skipped() {
    assert_eq!(tick(79 * MS + MS / 2, Some(0)), Tick { steps: 0, timer_ns: 79 * MS + MS / 2, sleep_ns: 0 });
    assert_eq!(tick(79 * MS, Some(0)), Tick { steps: 0, timer_ns: 79 * MS, sleep_ns: MS });
}
