//! The envelope shaper: attack, decay, sustain and release over one beat.

use vstd::prelude::*;
use vstd::math::min;
use crate::units::{UNIT, portion, lemma_portion_bounds};

verus! {

/// An attack-decay-sustain-release shape laid over one beat.
///
/// `attack`, `decay` and `release` are lengths, in millionths of a beat;
/// `sustain` is a level, in millionths of full gain. The three lengths need
/// not add up to a beat: a shape that is shorter falls silent before the beat
/// ends, one that is longer is cut off by the next beat.
#[derive(Clone, Copy, Debug, PartialEq, Eq)]
pub struct Envelope {
    pub attack: u32,
    pub decay: u32,
    pub sustain: u32,
    pub release: u32,
}

impl Envelope {
    /// How long the attack lasts in a beat of length `b`, in time units
    /// multiplied by `UNIT`.
    pub open spec fn attack_span(self, b: int) -> int {
        b * self.attack
    }

    /// How long the decay lasts, in the same unit.
    pub open spec fn decay_span(self, b: int) -> int {
        b * self.decay
    }

    /// How long the release lasts, in the same unit.
    pub open spec fn release_span(self, b: int) -> int {
        b * self.release
    }

    /// The gain, in millionths, at time `t` into a beat of length `b`.
    ///
    /// The attack rises linearly from zero to full gain, the decay falls
    /// linearly from full gain to the sustain level, the release falls
    /// linearly from the sustain level to zero, and silence follows. A phase
    /// of length zero is never entered, so no quotient has a zero divisor.
    /// Each value is rounded toward zero and capped at full gain.
    pub open spec fn gain_at(self, t: int, b: int) -> int {
        let at = t * UNIT;
        let full = UNIT as int;
        let decay_start = self.attack_span(b);
        let release_start = decay_start + self.decay_span(b);
        let end = release_start + self.release_span(b);
        if at < decay_start {
            min(portion(full, at, self.attack_span(b)), full)
        } else if at < release_start {
            let decay_time = at - decay_start;
            min(
                self.sustain + portion(
                    full - self.sustain,
                    self.decay_span(b) - decay_time,
                    self.decay_span(b),
                ),
                full,
            )
        } else if at < end {
            let release_time = at - release_start;
            min(
                portion(
                    self.sustain as int,
                    self.release_span(b) - release_time,
                    self.release_span(b),
                ),
                full,
            )
        } else {
            0
        }
    }

    /// The gain is a ratio between zero and one, whatever the shape.
    pub proof fn lemma_gain_in_range(self, t: int, b: int)
        requires
            0 <= t,
            0 <= b,
        ensures
            0 <= self.gain_at(t, b) <= UNIT,
    {
        let at = t * UNIT;
        let full = UNIT as int;
        let decay_start = self.attack_span(b);
        let release_start = decay_start + self.decay_span(b);
        let end = release_start + self.release_span(b);
        assert(0 <= at) by (nonlinear_arith)
            requires
                0 <= t,
                at == t * UNIT,
        ;
        if at < decay_start {
            lemma_portion_bounds(full, at, self.attack_span(b));
        } else if at < release_start {
            lemma_portion_bounds(
                full - self.sustain,
                self.decay_span(b) - (at - decay_start),
                self.decay_span(b),
            );
        } else if at < end {
            lemma_portion_bounds(
                self.sustain as int,
                self.release_span(b) - (at - release_start),
                self.release_span(b),
            );
        }
    }

    /// Halfway through the attack the gain is one half, whatever the length
    /// of the beat and whatever the rest of the shape.
    pub proof fn lemma_attack_midpoint(self, t: int, b: int)
        requires
            0 < b,
            0 < self.attack,
            2 * (t * UNIT) == b * self.attack,
        ensures
            self.gain_at(t, b) == UNIT / 2,
    {
        let at = t * UNIT;
        assert(0 < b * self.attack) by (nonlinear_arith)
            requires
                0 < b,
                0 < self.attack,
        ;
        assert(UNIT * at == (2 * at) * 500_000) by (nonlinear_arith);
        vstd::arithmetic::div_mod::lemma_fundamental_div_mod_converse(
            UNIT * at,
            2 * at,
            500_000,
            0,
        );
    }

    /// The gain at `beat_time` into a beat that lasts `beat_duration`, both
    /// in the same unit of time.
    pub fn value_at(&self, beat_time: u64, beat_duration: u64) -> (gain: u32)
        ensures
            gain == self.gain_at(beat_time as int, beat_duration as int),
            gain <= UNIT,
    {
        let ghost t = beat_time as int;
        let ghost b = beat_duration as int;
        proof {
            self.lemma_gain_in_range(t, b);
            assert(0 <= t * UNIT <= 0xFFFF_FFFF_FFFF_FFFF * 1_000_000) by (nonlinear_arith)
                requires
                    0 <= t <= 0xFFFF_FFFF_FFFF_FFFF,
            ;
            assert(0 <= b * self.attack <= 0xFFFF_FFFF_FFFF_FFFF * 0xFFFF_FFFF)
                by (nonlinear_arith)
                requires
                    0 <= b <= 0xFFFF_FFFF_FFFF_FFFF,
                    0 <= self.attack <= 0xFFFF_FFFF,
            ;
            assert(0 <= b * self.decay <= 0xFFFF_FFFF_FFFF_FFFF * 0xFFFF_FFFF)
                by (nonlinear_arith)
                requires
                    0 <= b <= 0xFFFF_FFFF_FFFF_FFFF,
                    0 <= self.decay <= 0xFFFF_FFFF,
            ;
            assert(0 <= b * self.release <= 0xFFFF_FFFF_FFFF_FFFF * 0xFFFF_FFFF)
                by (nonlinear_arith)
                requires
                    0 <= b <= 0xFFFF_FFFF_FFFF_FFFF,
                    0 <= self.release <= 0xFFFF_FFFF,
            ;
        }
        let wide_duration: u128 = beat_duration as u128;
        let at: u128 = (beat_time as u128) * 1_000_000u128;
        let attack_span: u128 = wide_duration * (self.attack as u128);
        let decay_span: u128 = wide_duration * (self.decay as u128);
        let release_span: u128 = wide_duration * (self.release as u128);
        let release_start: u128 = attack_span + decay_span;
        let end: u128 = release_start + release_span;
        if at < attack_span {
            proof {
                lemma_portion_bounds(UNIT as int, at as int, attack_span as int);
                assert(UNIT * at <= 1_000_000 * (0xFFFF_FFFF_FFFF_FFFF * 1_000_000))
                    by (nonlinear_arith)
                    requires
                        0 <= at <= 0xFFFF_FFFF_FFFF_FFFF * 1_000_000,
                ;
            }
            let rising: u128 = (1_000_000u128 * at) / attack_span;
            rising as u32
        } else if at < release_start {
            if self.sustain >= UNIT {
                proof {
                    lemma_portion_bounds(
                        UNIT - self.sustain,
                        release_start - at,
                        decay_span as int,
                    );
                }
                UNIT
            } else {
                let headroom: u128 = (UNIT - self.sustain) as u128;
                let left: u128 = release_start - at;
                proof {
                    lemma_portion_bounds(headroom as int, left as int, decay_span as int);
                    assert(headroom * left <= 1_000_000 * (0xFFFF_FFFF_FFFF_FFFF * 0xFFFF_FFFF))
                        by (nonlinear_arith)
                        requires
                            0 <= headroom <= 1_000_000,
                            0 <= left <= 0xFFFF_FFFF_FFFF_FFFF * 0xFFFF_FFFF,
                    ;
                }
                let falling: u128 = (headroom * left) / decay_span;
                self.sustain + (falling as u32)
            }
        } else if at < end {
            let level: u128 = self.sustain as u128;
            let left: u128 = end - at;
            proof {
                lemma_portion_bounds(level as int, left as int, release_span as int);
                assert(level * left <= 0xFFFF_FFFF * (0xFFFF_FFFF_FFFF_FFFF * 0xFFFF_FFFF))
                    by (nonlinear_arith)
                    requires
                        0 <= level <= 0xFFFF_FFFF,
                        0 <= left <= 0xFFFF_FFFF_FFFF_FFFF * 0xFFFF_FFFF,
                ;
            }
            let falling: u128 = (level * left) / release_span;
            if falling > 1_000_000u128 {
                UNIT
            } else {
                falling as u32
            }
        } else {
            0
        }
    }
}

} // verus!
