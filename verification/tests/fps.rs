use snake_game::{FpsCounter, FpsSample};

#[test]
fn fps_counter_starts_without_calls() {
    let counter = FpsCounter::new(1_000);
    assert_eq!(counter.call_count(), 0);
    assert_eq!(counter.last_tick(), 1_000);
}

#[test]
fn fps_counter_first_tick_contributes_no_sample() {
    let mut counter = FpsCounter::new(1_000);
    assert_eq!(counter.tick(7, 5_000), None);
    assert_eq!(counter.call_count(), 1);
    assert_eq!(counter.last_tick(), 5_000);
}

#[test]
fn fps_counter_later_ticks_measure_from_the_previous_tick() {
    let mut counter = FpsCounter::new(1_000);
    counter.tick(7, 5_000);
    assert_eq!(
        counter.tick(3, 21_000),
        Some(FpsSample { measurements: 3, elapsed_nanos: 16_000 })
    );
    assert_eq!(
        counter.tick(9, 21_001),
        Some(FpsSample { measurements: 9, elapsed_nanos: 1 })
    );
    assert_eq!(counter.call_count(), 3);
    assert_eq!(counter.last_tick(), 21_001);
}

#[test]
fn fps_counter_reports_zero_elapsed_time_as_it_is() {
    let mut counter = FpsCounter::new(0);
    counter.tick(1, 40);
    assert_eq!(
        counter.tick(1, 40),
        Some(FpsSample { measurements: 1, elapsed_nanos: 0 })
    );
}

#[test]
fn fps_counter_takes_a_clock_that_ran_backwards_as_zero() {
    let mut counter = FpsCounter::new(0);
    counter.tick(1, 500);
    assert_eq!(
        counter.tick(2, 100),
        Some(FpsSample { measurements: 2, elapsed_nanos: 0 })
    );
    assert_eq!(counter.last_tick(), 100);
}

#[test]
fn fps_counter_takes_the_largest_times() {
    let mut counter = FpsCounter::new(u128::MAX);
    assert_eq!(counter.tick(u32::MAX, 0), None);
    assert_eq!(
        counter.tick(u32::MAX, u128::MAX),
        Some(FpsSample { measurements: u32::MAX, elapsed_nanos: u128::MAX })
    );
}
