use rolling_sampler::sampler::RollingSampler;

#[test]
fn new_sampler_is_all_zero() {
    let s: RollingSampler<f64> = RollingSampler::new(4, 0.0);
    assert_eq!(s.snapshot(), vec![0.0, 0.0, 0.0, 0.0]);
}

#[test]
fn fill_phase_keeps_order_and_zero_pads() {
    let mut s: RollingSampler<f64> = RollingSampler::new(5, 0.0);
    s.push(1.5);
    s.push(-2.0);
    s.push(3.25);
    assert_eq!(s.snapshot(), vec![1.5, -2.0, 3.25, 0.0, 0.0]);
}

#[test]
fn fill_to_exact_capacity_keeps_every_value() {
    let mut s: RollingSampler<i64> = RollingSampler::new(3, 0);
    s.push(7);
    s.push(8);
    s.push(9);
    assert_eq!(s.snapshot(), vec![7, 8, 9]);
}

#[test]
fn one_push_past_capacity_evicts_the_oldest() {
    let mut s: RollingSampler<i64> = RollingSampler::new(3, 0);
    s.push(10);
    s.push(20);
    s.push(30);
    s.push(40);
    assert_eq!(s.snapshot(), vec![20, 30, 40]);
}

#[test]
fn steady_state_always_holds_the_most_recent_values() {
    let mut s: RollingSampler<i64> = RollingSampler::new(3, 0);
    let mut k: i64 = 1;
    while k <= 10 {
        s.push(k);
        k += 1;
    }
    assert_eq!(s.snapshot(), vec![8, 9, 10]);
}

#[test]
fn snapshot_does_not_disturb_the_buffer() {
    let mut s: RollingSampler<i64> = RollingSampler::new(2, 0);
    s.push(1);
    let first = s.snapshot();
    let second = s.snapshot();
    assert_eq!(first, second);
    s.push(2);
    s.push(3);
    assert_eq!(s.snapshot(), vec![2, 3]);
}
