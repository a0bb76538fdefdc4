//! The feedback delay: a circular line of samples whose delayed, attenuated
//! output is mixed with the dry signal.

use vstd::prelude::*;
use vstd::math::min;
use crate::units::{
    UNIT, MICROS_PER_SECOND, div_toward_zero, scaled, div_unit, lemma_product_bounds,
    lemma_div_toward_zero_bounds,
};

verus! {

/// The largest feedback: the largest ratio below one, so that what circulates
/// in the line decays.
pub const MAX_FEEDBACK: u32 = 999_999;

/// The largest magnitude a delay line ever holds: with dry samples within
/// full scale and feedback below one, what is stored stays within this bound.
pub const LINE_LIMIT: i64 = 1_000_000_000_000;

/// The parameters of a delay: the delay time in microseconds, and the
/// feedback and the wet share of the mix in millionths.
#[derive(Clone, Copy, Debug, PartialEq, Eq)]
pub struct DelaySettings {
    pub delay_time: u64,
    pub feedback: u32,
    pub wet: u32,
}

impl DelaySettings {
    /// The feedback is below one and the wet share is at most one.
    pub open spec fn is_valid(self) -> bool {
        self.feedback <= MAX_FEEDBACK && self.wet <= UNIT
    }

    /// These settings with the feedback brought below one and the wet share
    /// brought to at most one.
    pub open spec fn clamped(self) -> DelaySettings {
        DelaySettings {
            delay_time: self.delay_time,
            feedback: if self.feedback <= MAX_FEEDBACK {
                self.feedback
            } else {
                MAX_FEEDBACK
            },
            wet: if self.wet <= UNIT {
                self.wet
            } else {
                UNIT
            },
        }
    }

    /// Clamps the feedback below one and the wet share to at most one.
    pub fn validated(self) -> (valid: DelaySettings)
        ensures
            valid == self.clamped(),
            valid.is_valid(),
    {
        DelaySettings {
            delay_time: self.delay_time,
            feedback: if self.feedback <= MAX_FEEDBACK {
                self.feedback
            } else {
                MAX_FEEDBACK
            },
            wet: if self.wet <= UNIT {
                self.wet
            } else {
                UNIT
            },
        }
    }
}

/// A feedback delay line: its settings, the circular buffer and the place
/// where the next sample is written.
#[derive(Clone, Debug)]
pub struct Delay {
    settings: DelaySettings,
    buffer: Vec<i64>,
    write_index: usize,
}

/// What a `Delay` holds.
pub struct DelayView {
    pub settings: DelaySettings,
    pub buffer: Seq<i64>,
    pub write_index: nat,
}

impl DelayView {
    /// The settings are valid, the buffer is not empty, the write cursor lies
    /// within it, and every stored sample is within `LINE_LIMIT`.
    pub open spec fn wf(self) -> bool {
        &&& self.settings.is_valid()
        &&& self.buffer.len() > 0
        &&& self.write_index < self.buffer.len()
        &&& forall|i: int|
            0 <= i < self.buffer.len() ==> -LINE_LIMIT <= #[trigger] self.buffer[i] <= LINE_LIMIT
    }

    /// The delay in whole samples at `sample_rate`: the delay time, as far as
    /// the buffer is long.
    pub open spec fn delay_samples(self, sample_rate: int) -> int {
        min(
            (self.settings.delay_time * sample_rate) / (MICROS_PER_SECOND as int),
            self.buffer.len() as int,
        )
    }

    /// Where the delayed sample is read: `delay_samples` behind the write
    /// cursor, around the end of the buffer.
    pub open spec fn read_index(self, sample_rate: int) -> int {
        (self.write_index + self.buffer.len() - self.delay_samples(sample_rate)) % (
        self.buffer.len() as int)
    }

    /// The delayed signal: the stored sample at `read_index`, or the dry
    /// sample itself where the delay is no sample long.
    pub open spec fn delayed(self, dry: int, sample_rate: int) -> int {
        if self.delay_samples(sample_rate) == 0 {
            dry
        } else {
            self.buffer[self.read_index(sample_rate)] as int
        }
    }

    /// The output sample: the dry sample and the delayed one, mixed by the
    /// wet share.
    pub open spec fn output(self, dry: int, sample_rate: int) -> int {
        div_toward_zero(
            dry * (UNIT - self.settings.wet) + self.delayed(dry, sample_rate) * self.settings.wet,
            UNIT as int,
        )
    }

    /// The sample written into the line: the dry sample plus the delayed one
    /// attenuated by the feedback.
    pub open spec fn stored(self, dry: int, sample_rate: int) -> int {
        dry + scaled(self.delayed(dry, sample_rate), self.settings.feedback as int)
    }

    /// The line after one sample: `stored` is written at the cursor, and the
    /// cursor moves on, back to the start after the last place.
    pub open spec fn processed(self, dry: int, sample_rate: int) -> DelayView {
        DelayView {
            settings: self.settings,
            buffer: self.buffer.update(
                self.write_index as int,
                self.stored(dry, sample_rate) as i64,
            ),
            write_index: (self.write_index + 1) % self.buffer.len(),
        }
    }

    /// Stability: with a dry sample within full scale, the delayed signal and
    /// what is stored stay within `LINE_LIMIT`, and the line stays valid.
    pub proof fn lemma_processed_wf(self, dry: int, sample_rate: int)
        requires
            self.wf(),
            -UNIT <= dry <= UNIT,
            0 <= sample_rate,
        ensures
            0 <= self.delay_samples(sample_rate) <= self.buffer.len(),
            0 <= self.read_index(sample_rate) < self.buffer.len(),
            -LINE_LIMIT <= self.delayed(dry, sample_rate) <= LINE_LIMIT,
            -LINE_LIMIT <= self.stored(dry, sample_rate) <= LINE_LIMIT,
            -LINE_LIMIT <= self.output(dry, sample_rate) <= LINE_LIMIT,
            self.processed(dry, sample_rate).wf(),
    {
        let len = self.buffer.len() as int;
        let delayed = self.delayed(dry, sample_rate);
        let wet = self.settings.wet as int;
        assert(0 <= self.settings.delay_time * sample_rate) by (nonlinear_arith)
            requires
                0 <= self.settings.delay_time,
                0 <= sample_rate,
        ;
        vstd::arithmetic::div_mod::lemma_div_pos_is_pos(
            self.settings.delay_time * sample_rate,
            MICROS_PER_SECOND as int,
        );
        vstd::arithmetic::div_mod::lemma_mod_pos_bound(
            self.write_index + len - self.delay_samples(sample_rate),
            len,
        );
        vstd::arithmetic::div_mod::lemma_mod_pos_bound((self.write_index + 1) as int, len);
        lemma_product_bounds(delayed, LINE_LIMIT as int, self.settings.feedback as int, 999_999);
        lemma_div_toward_zero_bounds(
            delayed * self.settings.feedback,
            999_999_000_000,
            UNIT as int,
        );
        assert(-(LINE_LIMIT * UNIT) <= dry * (UNIT - wet) + delayed * wet <= LINE_LIMIT * UNIT)
            by (nonlinear_arith)
            requires
                -UNIT <= dry <= UNIT,
                -LINE_LIMIT <= delayed <= LINE_LIMIT,
                0 <= wet <= UNIT,
        ;
        lemma_div_toward_zero_bounds(
            dry * (UNIT - wet) + delayed * wet,
            LINE_LIMIT as int,
            UNIT as int,
        );
    }

    /// Decay: with silence coming in, what is written back into the line is
    /// nearer to zero than the delayed sample it was made from, unless that
    /// was zero already. So a tail that is fed nothing dies away.
    pub proof fn lemma_tail_decays(self, sample_rate: int)
        requires
            self.settings.is_valid(),
        ensures
            self.delayed(0, sample_rate) == 0 ==> self.stored(0, sample_rate) == 0,
            self.delayed(0, sample_rate) > 0 ==> 0 <= self.stored(0, sample_rate) < self.delayed(
                0,
                sample_rate,
            ),
            self.delayed(0, sample_rate) < 0 ==> self.delayed(0, sample_rate) < self.stored(
                0,
                sample_rate,
            ) <= 0,
    {
        let delayed = self.delayed(0, sample_rate);
        let feedback = self.settings.feedback as int;
        let size = if delayed >= 0 { delayed } else { -delayed };
        assert(0 <= size * feedback) by (nonlinear_arith)
            requires
                0 <= size,
                0 <= feedback,
        ;
        vstd::arithmetic::div_mod::lemma_div_pos_is_pos(size * feedback, UNIT as int);
        if size > 0 {
            assert(size * feedback < UNIT * size) by (nonlinear_arith)
                requires
                    0 < size,
                    0 <= feedback < UNIT,
            ;
            vstd::arithmetic::div_mod::lemma_multiply_divide_lt(
                size * feedback,
                UNIT as int,
                size,
            );
        } else {
            assert(delayed * feedback == 0) by (nonlinear_arith)
                requires
                    delayed == 0,
            ;
        }
        if delayed < 0 {
            assert(-(delayed * feedback) == size * feedback) by (nonlinear_arith)
                requires
                    size == -delayed,
            ;
            assert(delayed * feedback <= 0) by (nonlinear_arith)
                requires
                    delayed < 0,
                    0 <= feedback,
            ;
        }
    }

    /// A delay of no time mixes the dry signal with itself: the output is
    /// `dry * (1 - wet) + dry * wet`, which is the dry sample, for any wet
    /// share.
    pub proof fn lemma_zero_delay(self, dry: int, sample_rate: int)
        requires
            self.settings.delay_time == 0,
        ensures
            self.output(dry, sample_rate) == div_toward_zero(
                dry * (UNIT - self.settings.wet) + dry * self.settings.wet,
                UNIT as int,
            ),
            self.output(dry, sample_rate) == dry,
    {
        let wet = self.settings.wet as int;
        assert(0 * sample_rate == 0);
        assert(dry * (UNIT - wet) + dry * wet == dry * UNIT) by (nonlinear_arith);
        if dry >= 0 {
            vstd::arithmetic::div_mod::lemma_div_multiples_vanish(dry, UNIT as int);
            assert(dry * UNIT == UNIT * dry) by (nonlinear_arith);
        } else {
            vstd::arithmetic::div_mod::lemma_div_multiples_vanish(-dry, UNIT as int);
            assert(-(dry * UNIT) == UNIT * (-dry)) by (nonlinear_arith);
        }
    }
}

impl View for Delay {
    type V = DelayView;

    closed spec fn view(&self) -> DelayView {
        DelayView {
            settings: self.settings,
            buffer: self.buffer@,
            write_index: self.write_index as nat,
        }
    }
}

impl Delay {
    /// A valid delay line: see `DelayView::wf`.
    pub open spec fn wf(&self) -> bool {
        self@.wf()
    }

    /// A silent line of `capacity` samples with `settings` clamped to their
    /// valid range; `None` where `capacity` is zero.
    pub fn new(settings: DelaySettings, capacity: usize) -> (made: Option<Delay>)
        ensures
            made.is_some() <==> capacity > 0,
            made matches Some(delay) ==> {
                &&& delay.wf()
                &&& delay@.settings == settings.clamped()
                &&& delay@.buffer == Seq::new(capacity as nat, |i: int| 0i64)
                &&& delay@.write_index == 0
            },
    {
        if capacity == 0 {
            return None;
        }
        let buffer: Vec<i64> = vec![0i64; capacity];
        assert(buffer@ =~= Seq::new(capacity as nat, |i: int| 0i64));
        Some(Delay { settings: settings.validated(), buffer, write_index: 0 })
    }

    /// The settings in force.
    pub fn settings(&self) -> (settings: DelaySettings)
        ensures
            settings == self@.settings,
    {
        self.settings
    }

    /// How many samples the line holds.
    pub fn capacity(&self) -> (n: usize)
        ensures
            n == self@.buffer.len(),
    {
        self.buffer.len()
    }

    /// Where the next sample is written.
    pub fn write_index(&self) -> (index: usize)
        ensures
            index == self@.write_index,
    {
        self.write_index
    }

    /// The stored samples, in buffer order.
    pub fn buffer(&self) -> (samples: &Vec<i64>)
        ensures
            samples@ == self@.buffer,
    {
        &self.buffer
    }

    /// Puts `settings`, clamped to their valid range, in force. The stored
    /// samples and the write cursor stay as they are.
    pub fn configure(&mut self, settings: DelaySettings)
        requires
            old(self).wf(),
        ensures
            final(self)@ == (DelayView { settings: settings.clamped(), ..old(self)@ }),
            final(self).wf(),
    {
        self.settings = settings.validated();
    }

    /// The delay in whole samples at `sample_rate`.
    pub fn delay_samples(&self, sample_rate: u32) -> (samples: usize)
        ensures
            samples == self@.delay_samples(sample_rate as int),
            samples <= self@.buffer.len(),
    {
        proof {
            assert(0 <= self.settings.delay_time * sample_rate <= 0xFFFF_FFFF_FFFF_FFFF
                * 0xFFFF_FFFF) by (nonlinear_arith)
                requires
                    0 <= self.settings.delay_time <= 0xFFFF_FFFF_FFFF_FFFF,
                    0 <= sample_rate <= 0xFFFF_FFFF,
            ;
        }
        let span: u128 = (self.settings.delay_time as u128) * (sample_rate as u128);
        let whole: u128 = span / 1_000_000u128;
        let capacity: usize = self.buffer.len();
        if whole < capacity as u128 {
            whole as usize
        } else {
            capacity
        }
    }

    /// Takes one dry sample through the line and gives the mixed output.
    pub fn process(&mut self, dry: i64, sample_rate: u32) -> (out: i64)
        requires
            old(self).wf(),
            -UNIT <= dry <= UNIT,
        ensures
            out == old(self)@.output(dry as int, sample_rate as int),
            final(self)@ == old(self)@.processed(dry as int, sample_rate as int),
            final(self).wf(),
    {
        proof {
            self@.lemma_processed_wf(dry as int, sample_rate as int);
        }
        let capacity: usize = self.buffer.len();
        let behind: usize = self.delay_samples(sample_rate);
        let delayed: i64 = if behind == 0 {
            dry
        } else {
            let read_index: usize = if self.write_index >= behind {
                self.write_index - behind
            } else {
                self.write_index + (capacity - behind)
            };
            proof {
                let len = capacity as int;
                if self.write_index >= behind {
                    vstd::arithmetic::div_mod::lemma_mod_add_multiples_vanish(
                        self.write_index - behind,
                        len,
                    );
                }
                vstd::arithmetic::div_mod::lemma_small_mod(read_index as nat, len as nat);
            }
            self.buffer[read_index]
        };
        let wet: i64 = self.settings.wet as i64;
        let feedback: i64 = self.settings.feedback as i64;
        proof {
            lemma_product_bounds(delayed as int, LINE_LIMIT as int, feedback as int, 999_999);
            assert(-(LINE_LIMIT * UNIT) <= dry * (UNIT - wet) <= LINE_LIMIT * UNIT)
                by (nonlinear_arith)
                requires
                    -UNIT <= dry <= UNIT,
                    0 <= wet <= UNIT,
            ;
            lemma_product_bounds(delayed as int, LINE_LIMIT as int, wet as int, UNIT as int);
        }
        let out: i64 = div_unit(dry * (1_000_000 - wet) + delayed * wet);
        let stored: i64 = dry + div_unit(delayed * feedback);
        self.buffer[self.write_index] = stored;
        self.write_index = (self.write_index + 1) % capacity;
        out
    }
}

} // verus!
