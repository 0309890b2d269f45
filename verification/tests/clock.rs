use picofb::FrameClock;
use picofb::sched::throttle_delay_ms;

#[test]
fn no_updates_are_owed_at_the_start_of_a_run() {
    let clock = FrameClock::new(1000, 60);
    assert_eq!(clock.updates_due(1000), 0);
    assert_eq!(clock.updates_due(999), 0);
}

#[test]
fn fixed_step_scenario_tenth_of_a_second_at_rate_sixty() {
    // A real-time jump of exactly 0.1 s at 60 updates per second owes
    // exactly 6 fixed updates, before any render of that frame.
    let mut clock = FrameClock::new(1000, 60);
    assert_eq!(clock.updates_due(1100), 6);
    let mut sim_ticks = Vec::new();
    for _ in 0..6 {
        clock.advance();
        sim_ticks.push(clock.ticks);
    }
    // Monotonically increasing simulated times, spaced by exactly one step.
    assert_eq!(sim_ticks, vec![1, 2, 3, 4, 5, 6]);
    assert_eq!(clock.updates_due(1100), 0);
    // The next identical jump owes exactly 6 again.
    assert_eq!(clock.updates_due(1200), 6);
}

#[test]
fn a_partial_step_still_owes_one_update() {
    let clock = FrameClock::new(0, 60);
    // 10 ms at 60 Hz is 0.6 of a step: one update is owed to catch up.
    assert_eq!(clock.updates_due(10), 1);
}

#[test]
fn updates_owed_scale_with_the_update_rate() {
    let clock = FrameClock::new(0, 100);
    assert_eq!(clock.updates_due(1000), 100);
    let slow = FrameClock::new(0, 1);
    assert_eq!(slow.updates_due(1000), 1);
}

#[test]
fn caught_up_clock_owes_nothing_until_time_moves() {
    let mut clock = FrameClock::new(500, 30);
    assert_eq!(clock.updates_due(600), 3);
    for _ in 0..3 {
        clock.advance();
    }
    assert_eq!(clock.updates_due(600), 0);
    // Simulated time stands exactly at the wall clock; one more millisecond
    // owes the next whole step.
    assert_eq!(clock.updates_due(601), 1);
}

#[test]
fn throttle_sleeps_the_remainder_of_the_frame_period() {
    // Ceiling of 500 frames per second: a 2 ms period.
    assert_eq!(throttle_delay_ms(0, 500), 2);
    assert_eq!(throttle_delay_ms(1, 500), 1);
    assert_eq!(throttle_delay_ms(2, 500), 0);
    assert_eq!(throttle_delay_ms(10, 500), 0);
}
