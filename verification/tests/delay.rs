use cardsynth::delay::{Delay, DelaySettings, LINE_LIMIT, MAX_FEEDBACK};
use cardsynth::units::UNIT;

fn settings(delay_time: u64, feedback: u32, wet: u32) -> DelaySettings {
    DelaySettings { delay_time, feedback, wet }
}

#[test]
fn zero_delay_gives_the_dry_sample_for_any_wet() {
    for wet in [0u32, 1, 250_000, 500_000, 999_999, 1_000_000] {
        let mut delay = Delay::new(settings(0, 500_000, wet), 8).unwrap();
        for dry in [0i64, 1, -1, 3, -3, 123_456, -654_321, 1_000_000, -1_000_000] {
            let wet_share = wet as i64;
            let mixed = (dry * (1_000_000 - wet_share) + dry * wet_share) / 1_000_000;
            assert_eq!(mixed, dry);
            assert_eq!(delay.process(dry, 44_100), mixed);
        }
    }
}

#[test]
fn zero_delay_stores_the_dry_sample_with_its_own_feedback() {
    let mut delay = Delay::new(settings(0, 500_000, 300_000), 4).unwrap();
    delay.process(400_000, 44_100);
    assert_eq!(delay.buffer()[0], 600_000);
    assert_eq!(delay.write_index(), 1);
}

#[test]
fn an_impulse_comes_back_after_the_delay_and_decays() {
    // two samples of delay at a sample rate of one million
    let mut delay = Delay::new(settings(2, 500_000, 1_000_000), 4).unwrap();
    assert_eq!(delay.delay_samples(1_000_000), 2);
    let mut out = Vec::new();
    out.push(delay.process(1_000_000, 1_000_000));
    for _ in 0..8 {
        out.push(delay.process(0, 1_000_000));
    }
    assert_eq!(out, vec![0, 0, 1_000_000, 0, 500_000, 0, 250_000, 0, 125_000]);
}

#[test]
fn output_mixes_dry_and_delayed_by_the_wet_share() {
    let mut delay = Delay::new(settings(1, 0, 250_000), 4).unwrap();
    assert_eq!(delay.process(800_000, 1_000_000), 600_000);
    assert_eq!(delay.process(400_000, 1_000_000), 500_000);
    assert_eq!(delay.process(0, 1_000_000), 100_000);
}

#[test]
fn what_is_stored_is_dry_plus_delayed_times_feedback() {
    let mut delay = Delay::new(settings(1, 250_000, 500_000), 2).unwrap();
    delay.process(800_000, 1_000_000);
    assert_eq!(delay.buffer()[0], 800_000);
    delay.process(100_000, 1_000_000);
    assert_eq!(delay.buffer()[1], 300_000);
    delay.process(0, 1_000_000);
    assert_eq!(delay.buffer()[0], 75_000);
}

#[test]
fn products_round_toward_zero() {
    let mut delay = Delay::new(settings(1, 500_000, 500_000), 2).unwrap();
    assert_eq!(delay.process(-3, 1_000_000), -1);
    // delayed is -3: half of it is rounded to -1 in the line, and the mix of 0 and -3 to -1
    assert_eq!(delay.process(0, 1_000_000), -1);
    assert_eq!(delay.buffer()[1], -1);
    let mut positive = Delay::new(settings(1, 500_000, 500_000), 2).unwrap();
    assert_eq!(positive.process(3, 1_000_000), 1);
    assert_eq!(positive.process(0, 1_000_000), 1);
    assert_eq!(positive.buffer()[1], 1);
}

#[test]
fn the_write_cursor_wraps_around() {
    let mut delay = Delay::new(settings(0, 0, 0), 3).unwrap();
    let mut seen = Vec::new();
    for _ in 0..7 {
        seen.push(delay.write_index());
        delay.process(0, 44_100);
    }
    assert_eq!(seen, vec![0, 1, 2, 0, 1, 2, 0]);
}

#[test]
fn the_delay_in_samples_follows_time_and_rate() {
    let delay = Delay::new(settings(500_000, 500_000, 500_000), 44_100).unwrap();
    assert_eq!(delay.delay_samples(44_100), 22_050);
    assert_eq!(delay.delay_samples(48_000), 24_000);
    assert_eq!(delay.delay_samples(1), 0);
    assert_eq!(delay.delay_samples(0), 0);
    let odd = Delay::new(settings(333, 0, 0), 100).unwrap();
    assert_eq!(odd.delay_samples(10_000), 3);
}

#[test]
fn a_delay_longer_than_the_line_is_as_long_as_the_line() {
    let mut delay = Delay::new(settings(10_000_000, 0, 1_000_000), 3).unwrap();
    assert_eq!(delay.delay_samples(44_100), 3);
    let huge = Delay::new(settings(u64::MAX, 0, 0), 5).unwrap();
    assert_eq!(huge.delay_samples(u32::MAX), 5);
    let mut out = Vec::new();
    for dry in [100i64, 200, 300, 400, 500, 600] {
        out.push(delay.process(dry, 44_100));
    }
    assert_eq!(out, vec![0, 0, 0, 100, 200, 300]);
}

#[test]
fn a_line_without_samples_is_refused() {
    assert!(Delay::new(settings(500_000, 500_000, 500_000), 0).is_none());
}

#[test]
fn a_new_line_is_silent() {
    let delay = Delay::new(settings(500_000, 500_000, 500_000), 16).unwrap();
    assert_eq!(delay.capacity(), 16);
    assert_eq!(delay.write_index(), 0);
    assert_eq!(delay.buffer(), &vec![0i64; 16]);
}

#[test]
fn feedback_and_wet_are_clamped() {
    let delay = Delay::new(settings(500_000, 1_000_000, 1_000_001), 4).unwrap();
    assert_eq!(delay.settings(), settings(500_000, MAX_FEEDBACK, UNIT));
    let high = settings(1, u32::MAX, u32::MAX).validated();
    assert_eq!(high, settings(1, 999_999, 1_000_000));
    let fine = settings(7, 999_999, 1_000_000).validated();
    assert_eq!(fine, settings(7, 999_999, 1_000_000));
    let low = settings(7, 0, 0).validated();
    assert_eq!(low, settings(7, 0, 0));
}

#[test]
fn configure_keeps_the_line_and_the_cursor() {
    let mut delay = Delay::new(settings(1, 500_000, 500_000), 4).unwrap();
    delay.process(800_000, 1_000_000);
    delay.process(-200_000, 1_000_000);
    let stored = delay.buffer().clone();
    delay.configure(settings(3, 2_000_000, 100_000));
    assert_eq!(delay.settings(), settings(3, MAX_FEEDBACK, 100_000));
    assert_eq!(delay.buffer(), &stored);
    assert_eq!(delay.write_index(), 2);
}

#[test]
fn the_line_stays_bounded_under_the_strongest_feedback() {
    let mut delay = Delay::new(settings(1, u32::MAX, 1_000_000), 1).unwrap();
    let mut peak: i64 = 0;
    for _ in 0..200_000 {
        let out = delay.process(1_000_000, 1_000_000);
        peak = peak.max(out.abs());
        assert!(delay.buffer()[0].abs() <= LINE_LIMIT);
    }
    assert!(peak <= LINE_LIMIT);
    assert!(peak > 100_000_000_000);
}

#[test]
fn feedback_below_one_lets_the_tail_decay() {
    let mut delay = Delay::new(settings(1, 900_000, 1_000_000), 1).unwrap();
    delay.process(1_000_000, 1_000_000);
    let mut last = i64::MAX;
    for _ in 0..50 {
        let out = delay.process(0, 1_000_000);
        assert!(out < last);
        last = out;
    }
    assert!(last < 10_000);
}
