use picofb::FpsCounter;

#[test]
fn constant_samples_converge_to_the_sample_value() {
    let mut c = FpsCounter::new(32);
    let mut last = 0;
    for _ in 0..32 {
        last = c.add_measurement(120);
    }
    assert_eq!(last, 120);
    for _ in 0..8 {
        assert_eq!(c.add_measurement(120), 120);
    }
}

#[test]
fn average_is_the_truncating_window_sum_quotient() {
    let mut c = FpsCounter::new(4);
    assert_eq!(c.add_measurement(10), 2); // 10 / 4
    assert_eq!(c.add_measurement(20), 7); // 30 / 4
    assert_eq!(c.add_measurement(30), 15); // 60 / 4
    assert_eq!(c.add_measurement(40), 25); // 100 / 4
    assert_eq!(c.add_measurement(50), 35); // (100 - 10 + 50) / 4
}

#[test]
fn ring_overwrites_the_oldest_sample() {
    let mut c = FpsCounter::new(3);
    c.add_measurement(1);
    c.add_measurement(2);
    c.add_measurement(3);
    c.add_measurement(9);
    assert_eq!(c.measurements, vec![9, 2, 3]);
    assert_eq!(c.idx, 1);
    assert_eq!(c.sum, 14);
}

#[test]
fn fresh_counter_holds_a_zeroed_window() {
    let c = FpsCounter::new(5);
    assert_eq!(c.measurements, vec![0; 5]);
    assert_eq!(c.idx, 0);
    assert_eq!(c.sum, 0);
}
