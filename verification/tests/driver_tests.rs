use rolling_sampler::driver::pacing_sleep_ms;
use rolling_sampler::driver::Driver;
use rolling_sampler::driver::SamplerPair;

#[test]
fn paired_pushes_stay_index_aligned() {
    let mut p: SamplerPair<f64> = SamplerPair::new(3, 0.0);
    p.record(0.5, 100);
    p.record(1.5, 200);
    p.record(2.5, 300);
    p.record(3.5, 400);
    assert_eq!(p.values_snapshot(), vec![1.5, 2.5, 3.5]);
    assert_eq!(p.times_snapshot(), vec![200, 300, 400]);
    assert_eq!(p.paired_snapshot(), vec![(200, 1.5), (300, 2.5), (400, 3.5)]);
}

#[test]
fn paired_snapshot_in_fill_phase_pads_both_sides() {
    let mut p: SamplerPair<f64> = SamplerPair::new(3, 0.0);
    p.record(4.5, 700);
    assert_eq!(p.paired_snapshot(), vec![(700, 4.5), (0, 0.0), (0, 0.0)]);
}

#[test]
fn driver_records_each_tick_then_stops() {
    let mut d: Driver<i64> = Driver::new(5, 100, 3, 0);
    while d.running() {
        let elapsed = d.elapsed_ms();
        d.step(elapsed as i64 * 2);
    }
    assert!(!d.running());
    assert_eq!(d.times_snapshot(), vec![0, 100, 200, 300, 0]);
    assert_eq!(d.values_snapshot(), vec![0, 200, 400, 600, 0]);
}

#[test]
fn elapsed_time_is_tick_times_period() {
    let mut d: Driver<i64> = Driver::new(4, 250, 3, 0);
    let mut seen: Vec<u64> = Vec::new();
    while d.running() {
        seen.push(d.elapsed_ms());
        d.step(0);
    }
    assert_eq!(seen, vec![0, 250, 500, 750]);
}

#[test]
fn pacing_sleep_is_the_rest_of_the_budget_clamped_to_zero() {
    assert_eq!(pacing_sleep_ms(100, 0), 100);
    assert_eq!(pacing_sleep_ms(100, 30), 70);
    assert_eq!(pacing_sleep_ms(100, 100), 0);
    assert_eq!(pacing_sleep_ms(100, 250), 0);
}

#[test]
fn end_to_end_sine_scenario() {
    // Capacity 10, tick period 100 ms, 0.25 Hz, amplitude 4.0, phase 0,
    // 50 ticks: the loop ends in steady state holding the last 10 samples.
    let freq: f64 = 0.25;
    let amplitude: f64 = 4.0;
    let phase: f64 = 0.0;
    let mut d: Driver<f64> = Driver::new(10, 100, 50, 0.0);
    while d.running() {
        let elapsed = d.elapsed_ms();
        let secs = elapsed as f64 / 1000.0;
        let angle = 2.0 * std::f64::consts::PI * freq * secs + phase;
        d.step(amplitude * angle.sin());
    }
    assert!(!d.running());

    let values = d.values_snapshot();
    let times = d.times_snapshot();
    assert_eq!(values.len(), 10);
    assert_eq!(times.len(), 10);

    // The time axis covers the last ten ticks: 4100 ms through 5000 ms,
    // non-decreasing multiples of the tick period.
    let mut i: usize = 0;
    while i < times.len() {
        assert_eq!(times[i], 4100 + 100 * i as u64);
        assert_eq!(times[i] % 100, 0);
        if i > 0 {
            assert!(times[i - 1] <= times[i]);
        }
        i += 1;
    }

    // Each retained value is the sine the oscillator produced for the
    // timestamp retained beside it.
    let mut j: usize = 0;
    while j < values.len() {
        let secs = times[j] as f64 / 1000.0;
        let expected = amplitude * (2.0 * std::f64::consts::PI * freq * secs).sin();
        assert!((values[j] - expected).abs() < 1e-9);
        j += 1;
    }
}
