//! The state that the render callback owns, and the commands that change it.

use vstd::prelude::*;
use crate::delay::{Delay, DelaySettings, DelayView};
use crate::oscillator::{
    PHASE_ONE, BASE_FREQUENCY, MIN_FREQUENCY, MAX_FREQUENCY, Wavetable, advance_phase, next_phase,
    wave_sample, wave_wf, lemma_next_phase_in_cycle, lemma_table_index_in_table,
};
use crate::units::{UNIT, scaled, div_unit, lemma_product_bounds, lemma_div_toward_zero_bounds};

verus! {

/// One change to the audio state, decided by the control loop and applied by
/// the render callback. Each command sets a target, so that to apply it twice
/// is to apply it once.
#[derive(Clone, Copy, Debug, PartialEq, Eq)]
pub enum Command {
    /// Sound or silence.
    SetPlaying(bool),
    /// A new target frequency, in microhertz.
    SetFrequency(u64),
    /// A new target gain, in millionths.
    SetEnvelope(u32),
    /// Takes the delay into the signal path, with these settings.
    EngageDelay(DelaySettings),
    /// Takes the delay out of the signal path.
    BypassDelay,
}

/// The frequency nearest to `frequency` that is above zero and at most
/// `MAX_FREQUENCY`.
pub open spec fn clamp_frequency(frequency: int) -> nat {
    if frequency < MIN_FREQUENCY {
        MIN_FREQUENCY as nat
    } else if frequency > MAX_FREQUENCY {
        MAX_FREQUENCY as nat
    } else {
        frequency as nat
    }
}

/// The gain nearest to `gain` that is at most one.
pub open spec fn clamp_gain(gain: int) -> nat {
    if gain > UNIT {
        UNIT as nat
    } else {
        gain as nat
    }
}

/// The volume at full gain: one half.
pub const MAX_VOLUME: u32 = 500_000;

/// What the render callback works on: the oscillator's phase and target
/// frequency, the target gain, whether anything sounds, and the delay line.
#[derive(Clone, Debug)]
pub struct AudioState {
    phase: u64,
    frequency: u64,
    envelope: u32,
    playing: bool,
    delay: Delay,
    delay_bypassed: bool,
}

/// What an `AudioState` holds.
pub struct AudioStateView {
    pub phase: nat,
    pub frequency: nat,
    pub envelope: nat,
    pub playing: bool,
    pub delay: DelayView,
    pub delay_bypassed: bool,
}

impl AudioStateView {
    /// The phase lies within the cycle, the frequency is above zero and at
    /// most `MAX_FREQUENCY`, the gain is at most one, and the delay line is
    /// valid.
    pub open spec fn wf(self) -> bool {
        &&& self.phase < PHASE_ONE
        &&& MIN_FREQUENCY <= self.frequency <= MAX_FREQUENCY
        &&& self.envelope <= UNIT
        &&& self.delay.wf()
    }

    /// The state after `command`. A frequency or a gain out of range is
    /// clamped, and so are the settings of the delay. No command touches the
    /// phase, the stored samples of the delay line or its write cursor.
    pub open spec fn applied(self, command: Command) -> AudioStateView {
        match command {
            Command::SetPlaying(playing) => AudioStateView { playing, ..self },
            Command::SetFrequency(frequency) => AudioStateView {
                frequency: clamp_frequency(frequency as int),
                ..self
            },
            Command::SetEnvelope(gain) => AudioStateView {
                envelope: clamp_gain(gain as int),
                ..self
            },
            Command::EngageDelay(settings) => AudioStateView {
                delay: DelayView { settings: settings.clamped(), ..self.delay },
                delay_bypassed: false,
                ..self
            },
            Command::BypassDelay => AudioStateView { delay_bypassed: true, ..self },
        }
    }

    /// The state after each of `commands` in turn, the first first.
    pub open spec fn applied_all(self, commands: Seq<Command>) -> AudioStateView
        decreases commands.len(),
    {
        if commands.len() == 0 {
            self
        } else {
            self.applied(commands[0]).applied_all(commands.drop_first())
        }
    }

    /// The volume: the target gain at `MAX_VOLUME` while something plays, and
    /// nothing otherwise.
    pub open spec fn volume(self) -> int {
        if self.playing {
            scaled(self.envelope as int, MAX_VOLUME as int)
        } else {
            0
        }
    }

    /// The dry sample: what `wave` gives at the phase, at the volume.
    pub open spec fn dry_sample(self, wave: Seq<i64>) -> int {
        scaled(wave_sample(wave, self.phase as int), self.volume())
    }

    /// The sample that goes out. While nothing plays it is silence, whatever
    /// the delay line holds. While something plays it is the dry sample taken
    /// through the delay, or the dry sample itself where the delay is
    /// bypassed.
    pub open spec fn output_sample(self, wave: Seq<i64>, sample_rate: int) -> int {
        if !self.playing {
            0
        } else if self.delay_bypassed {
            self.dry_sample(wave)
        } else {
            self.delay.output(self.dry_sample(wave), sample_rate)
        }
    }

    /// The state one sample later: the phase has moved by the frequency over
    /// the sample rate, and the delay line has taken the dry sample in,
    /// unless it is bypassed: then it stays exactly as it is. Both run on
    /// while nothing plays: an engaged line then takes silence in, so that
    /// its tail decays unheard.
    pub open spec fn stepped(self, wave: Seq<i64>, sample_rate: int) -> AudioStateView {
        AudioStateView {
            phase: next_phase(self.phase as int, self.frequency as int, sample_rate) as nat,
            delay: if self.delay_bypassed {
                self.delay
            } else {
                self.delay.processed(self.dry_sample(wave), sample_rate)
            },
            ..self
        }
    }

    /// The dry sample is within full scale, and a sample later a valid state
    /// is valid still.
    pub proof fn lemma_stepped_wf(self, wave: Seq<i64>, sample_rate: int)
        requires
            self.wf(),
            wave_wf(wave),
            0 <= sample_rate,
        ensures
            0 <= self.volume() <= MAX_VOLUME,
            -UNIT <= self.dry_sample(wave) <= UNIT,
            self.stepped(wave, sample_rate).wf(),
    {
        let sample = wave_sample(wave, self.phase as int);
        lemma_table_index_in_table(wave.len() as int, self.phase as int);
        lemma_next_phase_in_cycle(self.phase as int, self.frequency as int, sample_rate);
        lemma_product_bounds(self.envelope as int, UNIT as int, MAX_VOLUME as int, UNIT as int);
        lemma_div_toward_zero_bounds(self.envelope * MAX_VOLUME, MAX_VOLUME as int, UNIT as int);
        assert(0 <= self.envelope * MAX_VOLUME <= MAX_VOLUME * UNIT) by (nonlinear_arith)
            requires
                0 <= self.envelope <= UNIT,
        ;
        lemma_product_bounds(sample, UNIT as int, self.volume(), UNIT as int);
        lemma_div_toward_zero_bounds(sample * self.volume(), UNIT as int, UNIT as int);
        if !self.delay_bypassed {
            self.delay.lemma_processed_wf(self.dry_sample(wave), sample_rate);
        }
    }

    /// A command applied twice is the command applied once.
    pub proof fn lemma_command_is_idempotent(self, command: Command)
        ensures
            self.applied(command).applied(command) == self.applied(command),
    {
    }

    /// Commands keep a valid state valid.
    pub proof fn lemma_applied_all_wf(self, commands: Seq<Command>)
        requires
            self.wf(),
        ensures
            self.applied_all(commands).wf(),
        decreases commands.len(),
    {
        if commands.len() > 0 {
            self.applied(commands[0]).lemma_applied_all_wf(commands.drop_first());
        }
    }

    /// To apply one run of commands and then another is to apply the two
    /// runs joined: nothing is reordered and nothing is merged.
    pub proof fn lemma_applied_all_concat(self, first: Seq<Command>, second: Seq<Command>)
        ensures
            self.applied_all(first + second) == self.applied_all(first).applied_all(second),
        decreases first.len(),
    {
        if first.len() == 0 {
            assert(first + second =~= second);
        } else {
            assert((first + second).drop_first() =~= first.drop_first() + second);
            self.applied(first[0]).lemma_applied_all_concat(first.drop_first(), second);
        }
    }

    /// A run of one command is that command.
    pub proof fn lemma_applied_all_one(self, command: Command)
        ensures
            self.applied_all(seq![command]) == self.applied(command),
    {
        assert(seq![command].drop_first() =~= Seq::<Command>::empty());
        assert(self.applied_all(seq![command]) == self.applied(command).applied_all(
            seq![command].drop_first(),
        ));
    }

    /// No command moves the phase: a change of frequency changes how fast the
    /// phase runs from here on, and leaves it where it is.
    pub proof fn lemma_commands_keep_phase(self, commands: Seq<Command>)
        ensures
            self.applied_all(commands).phase == self.phase,
        decreases commands.len(),
    {
        if commands.len() > 0 {
            self.applied(commands[0]).lemma_commands_keep_phase(commands.drop_first());
        }
    }

    /// No command touches what the delay line has stored, nor its write
    /// cursor.
    pub proof fn lemma_commands_keep_line(self, commands: Seq<Command>)
        ensures
            self.applied_all(commands).delay.buffer == self.delay.buffer,
            self.applied_all(commands).delay.write_index == self.delay.write_index,
        decreases commands.len(),
    {
        if commands.len() > 0 {
            self.applied(commands[0]).lemma_commands_keep_line(commands.drop_first());
        }
    }
}

impl View for AudioState {
    type V = AudioStateView;

    closed spec fn view(&self) -> AudioStateView {
        AudioStateView {
            phase: self.phase as nat,
            frequency: self.frequency as nat,
            envelope: self.envelope as nat,
            playing: self.playing,
            delay: self.delay@,
            delay_bypassed: self.delay_bypassed,
        }
    }
}

impl AudioState {
    /// A valid state: see `AudioStateView::wf`.
    pub open spec fn wf(&self) -> bool {
        self@.wf()
    }

    /// The state at the start of a stream: the phase at zero, the frequency
    /// at `BASE_FREQUENCY`, no gain, nothing playing, and `delay` out of the
    /// signal path.
    pub fn new(delay: Delay) -> (state: AudioState)
        requires
            delay.wf(),
        ensures
            state.wf(),
            state@ == (AudioStateView {
                phase: 0,
                frequency: BASE_FREQUENCY as nat,
                envelope: 0,
                playing: false,
                delay: delay@,
                delay_bypassed: true,
            }),
    {
        AudioState {
            phase: 0,
            frequency: BASE_FREQUENCY,
            envelope: 0,
            playing: false,
            delay,
            delay_bypassed: true,
        }
    }

    /// The oscillator's phase.
    pub fn phase(&self) -> (phase: u64)
        ensures
            phase == self@.phase,
    {
        self.phase
    }

    /// The target frequency, in microhertz.
    pub fn frequency(&self) -> (frequency: u64)
        ensures
            frequency == self@.frequency,
    {
        self.frequency
    }

    /// The target gain, in millionths.
    pub fn envelope(&self) -> (gain: u32)
        ensures
            gain == self@.envelope,
    {
        self.envelope
    }

    /// Whether anything sounds.
    pub fn is_playing(&self) -> (playing: bool)
        ensures
            playing == self@.playing,
    {
        self.playing
    }

    /// Whether the delay is out of the signal path.
    pub fn is_delay_bypassed(&self) -> (bypassed: bool)
        ensures
            bypassed == self@.delay_bypassed,
    {
        self.delay_bypassed
    }

    /// The delay line.
    pub fn delay(&self) -> (delay: &Delay)
        ensures
            delay@ == self@.delay,
    {
        &self.delay
    }

    /// Makes one sample: gives the sample that goes out, which is silence
    /// while nothing plays, and moves the state on by one sample.
    pub fn synthesize(&mut self, wave: &Wavetable, sample_rate: u32) -> (out: i64)
        requires
            old(self).wf(),
            wave.wf(),
            sample_rate > 0,
        ensures
            out == old(self)@.output_sample(wave@, sample_rate as int),
            final(self)@ == old(self)@.stepped(wave@, sample_rate as int),
            final(self).wf(),
    {
        proof {
            self@.lemma_stepped_wf(wave@, sample_rate as int);
        }
        let volume: i64 = if self.playing {
            ((self.envelope as i64) * (MAX_VOLUME as i64)) / 1_000_000
        } else {
            0
        };
        let pure: i64 = wave.sample_at(self.phase);
        proof {
            lemma_product_bounds(pure as int, UNIT as int, volume as int, UNIT as int);
        }
        let dry: i64 = div_unit(pure * volume);
        let mixed: i64 = if self.delay_bypassed {
            dry
        } else {
            self.delay.process(dry, sample_rate)
        };
        self.phase = advance_phase(self.phase, self.frequency, sample_rate);
        if self.playing {
            mixed
        } else {
            0
        }
    }

    /// Applies one command.
    pub fn apply(&mut self, command: Command)
        requires
            old(self).wf(),
        ensures
            final(self)@ == old(self)@.applied(command),
            final(self).wf(),
    {
        match command {
            Command::SetPlaying(playing) => {
                self.playing = playing;
            },
            Command::SetFrequency(frequency) => {
                self.frequency = if frequency < MIN_FREQUENCY {
                    MIN_FREQUENCY
                } else if frequency > MAX_FREQUENCY {
                    MAX_FREQUENCY
                } else {
                    frequency
                };
            },
            Command::SetEnvelope(gain) => {
                self.envelope = if gain > UNIT {
                    UNIT
                } else {
                    gain
                };
            },
            Command::EngageDelay(settings) => {
                self.delay.configure(settings);
                self.delay_bypassed = false;
            },
            Command::BypassDelay => {
                self.delay_bypassed = true;
            },
        }
    }
}

} // verus!
