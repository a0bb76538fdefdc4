//! The oscillator: a phase that runs through one cycle after another at a
//! controllable frequency, and the table that turns a phase into a sample.

use vstd::prelude::*;
use crate::units::{UNIT, MICROS_PER_SECOND};

verus! {

/// One full cycle of phase. A phase is at least zero and below this.
pub const PHASE_ONE: u64 = 1_000_000_000_000;

/// The frequency, in microhertz, that a multiplier of one stands for: 440 Hz.
pub const BASE_FREQUENCY: u64 = 440_000_000;

/// The lowest frequency, in microhertz: a frequency is above zero.
pub const MIN_FREQUENCY: u64 = 1;

/// The highest frequency, in microhertz.
pub const MAX_FREQUENCY: u64 = 2_000_000_000_000;

/// The most samples a waveform table holds.
pub const MAX_TABLE_LEN: usize = 1_000_000;

/// How far the phase moves in one sample: the frequency over the sample
/// rate, in phase units, rounded down.
pub open spec fn phase_increment(frequency: int, sample_rate: int) -> int {
    (frequency * MICROS_PER_SECOND) / sample_rate
}

/// The phase one sample later: moved by the increment, and taken back into
/// the cycle.
pub open spec fn next_phase(phase: int, frequency: int, sample_rate: int) -> int {
    (phase + phase_increment(frequency, sample_rate)) % (PHASE_ONE as int)
}

/// The next phase is a phase again.
pub proof fn lemma_next_phase_in_cycle(phase: int, frequency: int, sample_rate: int)
    ensures
        0 <= next_phase(phase, frequency, sample_rate) < PHASE_ONE,
{
    vstd::arithmetic::div_mod::lemma_mod_bound(
        phase + phase_increment(frequency, sample_rate),
        PHASE_ONE as int,
    );
}

/// Below one cycle per sample the phase wraps at most once: it moves by the
/// increment, and one cycle is taken off where it reaches the end of the
/// cycle.
pub proof fn lemma_single_wrap(phase: int, frequency: int, sample_rate: int)
    requires
        0 <= phase < PHASE_ONE,
        0 < sample_rate,
        0 <= frequency < sample_rate * MICROS_PER_SECOND,
    ensures
        0 <= phase_increment(frequency, sample_rate) < PHASE_ONE,
        next_phase(phase, frequency, sample_rate) == if phase + phase_increment(
            frequency,
            sample_rate,
        ) >= PHASE_ONE {
            phase + phase_increment(frequency, sample_rate) - PHASE_ONE
        } else {
            phase + phase_increment(frequency, sample_rate)
        },
{
    let one = PHASE_ONE as int;
    let step = phase_increment(frequency, sample_rate);
    assert(0 <= frequency * MICROS_PER_SECOND < one * sample_rate) by (nonlinear_arith)
        requires
            0 <= frequency < sample_rate * MICROS_PER_SECOND,
            one == MICROS_PER_SECOND * MICROS_PER_SECOND,
    ;
    vstd::arithmetic::div_mod::lemma_div_pos_is_pos(frequency * MICROS_PER_SECOND, sample_rate);
    vstd::arithmetic::div_mod::lemma_multiply_divide_lt(
        frequency * MICROS_PER_SECOND,
        sample_rate,
        one,
    );
    if phase + step >= one {
        vstd::arithmetic::div_mod::lemma_mod_add_multiples_vanish(phase + step - one, one);
        vstd::arithmetic::div_mod::lemma_small_mod((phase + step - one) as nat, one as nat);
    } else {
        vstd::arithmetic::div_mod::lemma_small_mod((phase + step) as nat, one as nat);
    }
}

/// The place in a table of `len` samples that stands for `phase`.
pub open spec fn table_index(len: int, phase: int) -> int {
    (phase * len) / (PHASE_ONE as int)
}

/// A phase within the cycle has a place within the table.
pub proof fn lemma_table_index_in_table(len: int, phase: int)
    requires
        0 < len,
        0 <= phase < PHASE_ONE,
    ensures
        0 <= table_index(len, phase) < len,
{
    assert(0 <= phase * len < len * PHASE_ONE) by (nonlinear_arith)
        requires
            0 < len,
            0 <= phase < PHASE_ONE,
    ;
    vstd::arithmetic::div_mod::lemma_div_pos_is_pos(phase * len, PHASE_ONE as int);
    vstd::arithmetic::div_mod::lemma_multiply_divide_lt(phase * len, PHASE_ONE as int, len);
}

/// The sample that a waveform gives at `phase`.
pub open spec fn wave_sample(wave: Seq<i64>, phase: int) -> int {
    wave[table_index(wave.len() as int, phase)] as int
}

/// A table that holds at least one and at most `MAX_TABLE_LEN` samples, each
/// within full scale.
pub open spec fn wave_wf(wave: Seq<i64>) -> bool {
    &&& 0 < wave.len() <= MAX_TABLE_LEN
    &&& forall|i: int| 0 <= i < wave.len() ==> -UNIT <= #[trigger] wave[i] <= UNIT
}

/// The phase one sample after `phase`.
pub fn advance_phase(phase: u64, frequency: u64, sample_rate: u32) -> (next: u64)
    requires
        phase < PHASE_ONE,
        frequency <= MAX_FREQUENCY,
        sample_rate > 0,
    ensures
        next == next_phase(phase as int, frequency as int, sample_rate as int),
        next < PHASE_ONE,
{
    proof {
        lemma_next_phase_in_cycle(phase as int, frequency as int, sample_rate as int);
        vstd::arithmetic::div_mod::lemma_div_is_ordered_by_denominator(
            frequency * MICROS_PER_SECOND,
            1,
            sample_rate as int,
        );
    }
    let step: u64 = (frequency * 1_000_000) / (sample_rate as u64);
    (phase + step) % 1_000_000_000_000
}

/// One cycle of a waveform, sampled at equal steps of phase.
#[derive(Clone, Debug)]
pub struct Wavetable {
    samples: Vec<i64>,
}

impl View for Wavetable {
    type V = Seq<i64>;

    closed spec fn view(&self) -> Seq<i64> {
        self.samples@
    }
}

impl Wavetable {
    /// A valid table: see `wave_wf`.
    pub open spec fn wf(&self) -> bool {
        wave_wf(self@)
    }

    /// The table that holds `samples`; `None` where there is no sample, where
    /// there are more than `MAX_TABLE_LEN`, or where one is beyond full
    /// scale.
    pub fn new(samples: Vec<i64>) -> (made: Option<Wavetable>)
        ensures
            made.is_some() <==> wave_wf(samples@),
            made matches Some(table) ==> table@ == samples@,
    {
        if samples.len() == 0 || samples.len() > MAX_TABLE_LEN {
            return None;
        }
        let mut i: usize = 0;
        while i < samples.len()
            invariant
                i <= samples.len(),
                forall|j: int| 0 <= j < i ==> -UNIT <= #[trigger] samples[j] <= UNIT,
            decreases samples.len() - i,
        {
            if samples[i] < -1_000_000 || samples[i] > 1_000_000 {
                return None;
            }
            i += 1;
        }
        Some(Wavetable { samples })
    }

    /// How many samples the table holds.
    pub fn len(&self) -> (n: usize)
        ensures
            n == self@.len(),
    {
        self.samples.len()
    }

    /// The sample at `phase`.
    pub fn sample_at(&self, phase: u64) -> (sample: i64)
        requires
            self.wf(),
            phase < PHASE_ONE,
        ensures
            sample == wave_sample(self@, phase as int),
            -UNIT <= sample <= UNIT,
    {
        proof {
            lemma_table_index_in_table(self.samples.len() as int, phase as int);
            assert(phase * self.samples.len() <= PHASE_ONE * MAX_TABLE_LEN) by (nonlinear_arith)
                requires
                    0 <= phase < PHASE_ONE,
                    0 < self.samples.len() <= MAX_TABLE_LEN,
            ;
        }
        let index: u64 = (phase * (self.samples.len() as u64)) / 1_000_000_000_000;
        self.samples[index as usize]
    }
}

} // verus!
