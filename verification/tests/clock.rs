use cardsynth::clock::{Beat, BeatClock, MAX_BPM};

#[test]
fn a_beat_at_120_bpm_lasts_half_a_second() {
    let clock = BeatClock::new(120).unwrap();
    assert_eq!(clock.bpm(), 120);
    assert_eq!(clock.beat_duration(), 500_000);
    assert_eq!(clock.beat_time(), 0);
    assert_eq!(clock.last_update(), 0);
}

#[test]
fn beat_duration_is_rounded_down_to_whole_microseconds() {
    assert_eq!(BeatClock::new(7).unwrap().beat_duration(), 8_571_428);
    assert_eq!(BeatClock::new(1).unwrap().beat_duration(), 60_000_000);
    assert_eq!(BeatClock::new(MAX_BPM).unwrap().beat_duration(), 1);
}

#[test]
fn a_tempo_of_zero_or_too_fast_is_refused() {
    assert!(BeatClock::new(0).is_none());
    assert!(BeatClock::new(MAX_BPM + 1).is_none());
    assert!(BeatClock::new(u32::MAX).is_none());
}

#[test]
fn time_adds_up_within_a_beat() {
    let mut clock = BeatClock::new(120).unwrap();
    assert_eq!(clock.advance(100_000), Beat { time: 100_000, duration: 500_000, boundary: false });
    assert_eq!(clock.advance(300_000), Beat { time: 400_000, duration: 500_000, boundary: false });
    assert_eq!(clock.beat_time(), 400_000);
}

#[test]
fn the_end_of_a_beat_resets_to_zero_and_drops_the_overshoot() {
    let mut clock = BeatClock::new(120).unwrap();
    clock.advance(400_000);
    let beat = clock.advance(250_000);
    assert_eq!(beat, Beat { time: 0, duration: 500_000, boundary: true });
    assert_eq!(clock.beat_time(), 0);
}

#[test]
fn reaching_the_beat_duration_exactly_is_a_boundary() {
    let mut clock = BeatClock::new(120).unwrap();
    clock.advance(499_999);
    assert_eq!(clock.beat_time(), 499_999);
    let beat = clock.advance(1);
    assert!(beat.boundary);
    assert_eq!(beat.time, 0);
}

#[test]
fn no_time_elapsed_is_no_boundary() {
    let mut clock = BeatClock::new(120).unwrap();
    let beat = clock.advance(0);
    assert_eq!(beat, Beat { time: 0, duration: 500_000, boundary: false });
}

#[test]
fn a_very_long_tick_is_one_boundary() {
    let mut clock = BeatClock::new(120).unwrap();
    clock.advance(499_999);
    let beat = clock.advance(u64::MAX);
    assert!(beat.boundary);
    assert_eq!(clock.beat_time(), 0);
}

#[test]
fn beat_time_stays_below_the_beat_duration() {
    let mut clock = BeatClock::new(133).unwrap();
    let duration = clock.beat_duration();
    let mut step: u64 = 1;
    for _ in 0..2_000 {
        step = (step * 48_271) % 700_001;
        clock.advance(step);
        assert!(clock.beat_time() < duration);
    }
}

#[test]
fn update_moves_by_the_time_since_the_last_update() {
    let mut clock = BeatClock::new(120).unwrap();
    let first = clock.update(200_000);
    assert_eq!(first, Beat { time: 200_000, duration: 500_000, boundary: false });
    assert_eq!(clock.last_update(), 200_000);
    let second = clock.update(450_000);
    assert_eq!(second.time, 450_000);
    let third = clock.update(520_000);
    assert_eq!(third, Beat { time: 0, duration: 500_000, boundary: true });
    assert_eq!(clock.last_update(), 520_000);
    let fourth = clock.update(530_000);
    assert_eq!(fourth, Beat { time: 10_000, duration: 500_000, boundary: false });
}

#[test]
fn update_with_an_earlier_time_moves_by_nothing() {
    let mut clock = BeatClock::new(120).unwrap();
    clock.update(300_000);
    let beat = clock.update(100_000);
    assert_eq!(beat, Beat { time: 300_000, duration: 500_000, boundary: false });
    assert_eq!(clock.last_update(), 100_000);
    let next = clock.update(150_000);
    assert_eq!(next.time, 350_000);
}
