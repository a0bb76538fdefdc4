use cardsynth::bridge::Bridge;
use cardsynth::chain::{Node, Targets};
use cardsynth::clock::{Beat, MAX_BPM};
use cardsynth::control::Control;
use cardsynth::delay::{Delay, DelaySettings};
use cardsynth::envelope::Envelope;
use cardsynth::oscillator::Wavetable;
use cardsynth::render::render;
use cardsynth::sequencer::Sequencer;
use cardsynth::state::{AudioState, Command};

fn cards() -> Vec<Node> {
    vec![
        Node::Oscillator,
        Node::Sequencer(Sequencer::new(vec![800_000, 1_000_000, 1_200_000, 1_000_000]).unwrap()),
        Node::Envelope(Envelope {
            attack: 100_000,
            decay: 1_000_000,
            sustain: 400_000,
            release: 500_000,
        }),
        Node::Delay(DelaySettings { delay_time: 500_000, feedback: 500_000, wet: 500_000 }),
    ]
}

fn step_of(node: &Node) -> usize {
    match node {
        Node::Sequencer(sequencer) => sequencer.step(),
        _ => panic!("not a sequencer"),
    }
}

#[test]
fn control_starts_at_the_base_frequency() {
    let control = Control::new(120).unwrap();
    assert_eq!(control.frequency(), 440_000_000);
    assert_eq!(control.clock().bpm(), 120);
    assert_eq!(control.clock().beat_time(), 0);
    assert!(Control::new(0).is_none());
    assert!(Control::new(MAX_BPM + 1).is_none());
}

#[test]
fn a_tick_moves_the_clock_resolves_and_enqueues() {
    let mut control = Control::new(120).unwrap();
    let mut chain = cards();
    let mut bridge = Bridge::new();
    let targets = control.advance(&mut chain, &mut bridge, 25_000, 9);
    assert_eq!(control.clock().beat_time(), 25_000);
    assert_eq!(
        targets,
        Targets {
            playing: true,
            frequency: None,
            envelope: 500_000,
            delay: Some(DelaySettings { delay_time: 500_000, feedback: 500_000, wet: 500_000 }),
        }
    );
    assert_eq!(control.frequency(), 440_000_000);
    assert_eq!(bridge.dequeue(), Some(Command::SetPlaying(true)));
    assert_eq!(bridge.dequeue(), Some(Command::SetEnvelope(500_000)));
    assert_eq!(
        bridge.dequeue(),
        Some(Command::EngageDelay(DelaySettings {
            delay_time: 500_000,
            feedback: 500_000,
            wet: 500_000
        }))
    );
    assert_eq!(bridge.dequeue(), None);
}

#[test]
fn the_sequencer_steps_once_per_beat() {
    let mut control = Control::new(120).unwrap();
    let mut chain = cards();
    let mut bridge = Bridge::new();
    let mut decided = Vec::new();
    let mut held = Vec::new();
    let mut steps = Vec::new();
    for _ in 0..16 {
        let targets = control.advance(&mut chain, &mut bridge, 125_000, 0);
        decided.push(targets.frequency.map(|frequency| frequency / 1_000_000));
        held.push(control.frequency() / 1_000_000);
        steps.push(step_of(&chain[1]));
    }
    let n = None;
    assert_eq!(
        decided,
        vec![
            n, n, n, Some(352), n, n, n, Some(440), n, n, n, Some(528), n, n, n, Some(440),
        ]
    );
    assert_eq!(held, vec![440, 440, 440, 352, 352, 352, 352, 440, 440, 440, 440, 528, 528, 528, 528, 440]);
    assert_eq!(steps, vec![0, 0, 0, 1, 1, 1, 1, 2, 2, 2, 2, 3, 3, 3, 3, 0]);
    for _ in 0..3 {
        assert_eq!(control.advance(&mut chain, &mut bridge, 125_000, 0).frequency, None);
    }
    assert_eq!(
        control.advance(&mut chain, &mut bridge, 125_000, 0).frequency,
        Some(352_000_000)
    );
    // three commands on each of the fifteen ticks inside a beat, four on each of the five boundaries
    assert_eq!(bridge.len(), 65);
    let mut tuned = Vec::new();
    while let Some(command) = bridge.dequeue() {
        if let Command::SetFrequency(frequency) = command {
            tuned.push(frequency);
        }
    }
    assert_eq!(tuned, vec![352_000_000, 440_000_000, 528_000_000, 440_000_000, 352_000_000]);
}

#[test]
fn a_tick_on_the_boundary_sees_the_start_of_the_beat() {
    let mut control = Control::new(120).unwrap();
    let mut chain = cards();
    let mut bridge = Bridge::new();
    control.advance(&mut chain, &mut bridge, 450_000, 0);
    let targets = control.advance(&mut chain, &mut bridge, 90_000, 0);
    assert_eq!(control.clock().beat_time(), 0);
    assert_eq!(targets.frequency, Some(352_000_000));
    assert_eq!(targets.envelope, 0);
}

#[test]
fn without_a_sequencer_the_frequency_drifts_from_tick_to_tick() {
    let mut control = Control::new(120).unwrap();
    let mut chain = vec![Node::Oscillator];
    let mut bridge = Bridge::new();
    let mut tick = |drift: i64| control.advance(&mut chain, &mut bridge, 16_000, drift).frequency;
    assert_eq!(tick(841_471), Some(440_841_471));
    assert_eq!(tick(909_297), Some(441_750_768));
    assert_eq!(tick(-756_802), Some(440_993_966));
    assert_eq!(tick(i64::MIN), Some(1));
    assert_eq!(tick(i64::MAX), Some(2_000_000_000_000));
    assert_eq!(control.frequency(), 2_000_000_000_000);
}

#[test]
fn drift_resumes_from_the_last_sequencer_step() {
    let mut control = Control::new(120).unwrap();
    let mut chain = cards();
    let mut bridge = Bridge::new();
    control.advance(&mut chain, &mut bridge, 500_000, 5);
    assert_eq!(control.frequency(), 352_000_000);
    chain.remove(1);
    assert_eq!(control.advance(&mut chain, &mut bridge, 1_000, 5).frequency, Some(352_000_005));
    assert_eq!(control.frequency(), 352_000_005);
}

#[test]
fn update_ticks_by_the_time_since_the_last_update() {
    let mut control = Control::new(120).unwrap();
    let mut chain = cards();
    let mut bridge = Bridge::new();
    let first = control.update(&mut chain, &mut bridge, 250_000, 0);
    assert_eq!(first.frequency, None);
    assert_eq!(first.envelope, 760_000);
    let second = control.update(&mut chain, &mut bridge, 510_000, 0);
    assert_eq!(second.frequency, Some(352_000_000));
    assert_eq!(control.clock().last_update(), 510_000);
    assert_eq!(control.clock().beat_time(), 0);
    assert_eq!(bridge.len(), 7);
}

#[test]
fn dispatch_resolves_at_a_given_beat() {
    let mut control = Control::new(120).unwrap();
    let mut chain = vec![Node::Oscillator];
    let mut bridge = Bridge::new();
    let beat = Beat { time: 1, duration: 2, boundary: true };
    let targets = control.dispatch(&mut chain, &mut bridge, beat, -4);
    assert_eq!(targets.frequency, Some(439_999_996));
    assert_eq!(control.frequency(), 439_999_996);
    assert_eq!(control.clock().beat_time(), 0);
    assert_eq!(bridge.dequeue(), Some(Command::SetPlaying(true)));
    assert_eq!(bridge.dequeue(), Some(Command::SetFrequency(439_999_996)));
    assert_eq!(bridge.dequeue(), Some(Command::SetEnvelope(1_000_000)));
    assert_eq!(bridge.dequeue(), Some(Command::BypassDelay));
    assert_eq!(bridge.dequeue(), None);
}

#[test]
fn a_closed_bridge_drops_the_targets_of_a_tick() {
    let mut control = Control::new(120).unwrap();
    let mut chain = cards();
    let mut bridge = Bridge::new();
    bridge.set_open(false);
    control.advance(&mut chain, &mut bridge, 500_000, 0);
    assert!(bridge.is_empty());
    assert_eq!(control.clock().beat_time(), 0);
    assert_eq!(step_of(&chain[1]), 1);
    assert_eq!(control.frequency(), 352_000_000);
}

#[test]
fn a_tick_inside_a_beat_does_not_make_up_for_a_dropped_frequency() {
    let mut control = Control::new(120).unwrap();
    let mut chain = vec![
        Node::Oscillator,
        Node::Sequencer(Sequencer::new(vec![2_000_000]).unwrap()),
    ];
    let mut bridge = Bridge::new();
    let mut state = AudioState::new(
        Delay::new(DelaySettings { delay_time: 0, feedback: 0, wet: 0 }, 1).unwrap(),
    );
    // the boundary tick decides 880 Hz, and the closed bridge drops it
    bridge.set_open(false);
    let dropped = control.advance(&mut chain, &mut bridge, 500_000, 0);
    assert_eq!(dropped.frequency, Some(880_000_000));
    assert!(bridge.is_empty());
    // the ticks inside the next beat carry no frequency
    bridge.set_open(true);
    for _ in 0..3 {
        assert_eq!(control.advance(&mut chain, &mut bridge, 100_000, 0).frequency, None);
    }
    assert_eq!(bridge.len(), 9);
    bridge.drain_into(&mut state);
    assert_eq!(state.frequency(), 440_000_000);
    assert!(state.is_playing());
    // the next boundary sets it
    control.advance(&mut chain, &mut bridge, 200_000, 0);
    bridge.drain_into(&mut state);
    assert_eq!(state.frequency(), 880_000_000);
}

#[test]
fn from_the_control_tick_to_the_samples() {
    let mut control = Control::new(120).unwrap();
    let mut chain = vec![
        Node::Oscillator,
        Node::Sequencer(Sequencer::new(vec![250_000]).unwrap()),
    ];
    let mut outbox = Bridge::new();
    let mut inbox = Bridge::new();
    let mut state = AudioState::new(
        Delay::new(DelaySettings { delay_time: 0, feedback: 0, wet: 0 }, 1).unwrap(),
    );
    let wave = Wavetable::new(vec![0, 1_000_000, 0, -1_000_000]).unwrap();

    control.advance(&mut chain, &mut outbox, 500_000, 0);
    while let Some(command) = outbox.dequeue() {
        inbox.enqueue(command);
    }
    let mut buffer = vec![0i64; 4];
    render(&mut state, &mut inbox, &wave, &mut buffer, 440);
    // a quarter of 440 Hz at 440 samples a second: a quarter of a cycle per sample
    assert_eq!(state.frequency(), 110_000_000);
    assert_eq!(state.frequency(), control.frequency());
    assert_eq!(buffer, vec![0, 500_000, 0, -500_000]);
}
