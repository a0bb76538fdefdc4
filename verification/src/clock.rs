//! The beat clock: the time elapsed within the current beat, at a tempo.

use vstd::prelude::*;

verus! {

/// Microseconds in a minute.
pub const MICROS_PER_MINUTE: u64 = 60_000_000;

/// The fastest tempo, in beats per minute: a beat lasts at least one
/// microsecond.
pub const MAX_BPM: u32 = 60_000_000;

/// Where a tick stands in its beat: the time into the beat and the length of
/// the beat, in microseconds, and whether the tick crossed a beat boundary.
#[derive(Clone, Copy, Debug, PartialEq, Eq)]
pub struct Beat {
    pub time: u64,
    pub duration: u64,
    pub boundary: bool,
}

/// A clock that counts the microseconds elapsed within the current beat.
#[derive(Clone, Copy, Debug, PartialEq, Eq)]
pub struct BeatClock {
    bpm: u32,
    beat_time: u64,
    last_update: u64,
}

/// What a `BeatClock` holds.
pub struct BeatClockView {
    pub bpm: nat,
    pub beat_time: nat,
    pub last_update: nat,
}

impl BeatClockView {
    /// The length of a beat in whole microseconds: a minute over the tempo.
    pub open spec fn beat_duration(self) -> nat {
        (MICROS_PER_MINUTE as nat) / self.bpm
    }

    /// The tempo is above zero and at most `MAX_BPM`, and the time into the
    /// beat is less than a beat.
    pub open spec fn wf(self) -> bool {
        &&& 0 < self.bpm <= MAX_BPM
        &&& self.beat_time < self.beat_duration()
    }

    /// Whether `elapsed` more microseconds reach the end of the beat.
    pub open spec fn crosses(self, elapsed: nat) -> bool {
        self.beat_time + elapsed >= self.beat_duration()
    }

    /// The clock `elapsed` microseconds later. At the end of the beat the
    /// time into the beat starts again at zero: what was elapsed beyond the
    /// end is not carried into the next beat.
    pub open spec fn advanced(self, elapsed: nat) -> BeatClockView {
        BeatClockView {
            beat_time: if self.crosses(elapsed) {
                0
            } else {
                self.beat_time + elapsed
            },
            ..self
        }
    }

    /// Where a tick that comes `elapsed` microseconds later stands in its
    /// beat.
    pub open spec fn beat_after(self, elapsed: nat) -> Beat {
        Beat {
            time: self.advanced(elapsed).beat_time as u64,
            duration: self.beat_duration() as u64,
            boundary: self.crosses(elapsed),
        }
    }

    /// The microseconds from the last update to `now`; none where `now` lies
    /// before it.
    pub open spec fn elapsed_at(self, now: nat) -> nat {
        if now >= self.last_update {
            (now - self.last_update) as nat
        } else {
            0
        }
    }

    /// The clock once it has been updated at the time `now`.
    pub open spec fn updated(self, now: nat) -> BeatClockView {
        BeatClockView { last_update: now, ..self.advanced(self.elapsed_at(now)) }
    }

    /// At a valid tempo a beat lasts at least a microsecond.
    pub proof fn lemma_beat_lasts(self)
        requires
            0 < self.bpm <= MAX_BPM,
        ensures
            self.beat_duration() >= 1,
    {
        vstd::arithmetic::div_mod::lemma_div_is_ordered_by_denominator(
            MICROS_PER_MINUTE as int,
            self.bpm as int,
            MAX_BPM as int,
        );
    }

    /// The time into the beat stays below a beat, however much time elapses.
    pub proof fn lemma_advanced_wf(self, elapsed: nat)
        requires
            self.wf(),
        ensures
            self.advanced(elapsed).wf(),
            self.advanced(elapsed).beat_time < self.beat_duration(),
    {
    }
}

impl View for BeatClock {
    type V = BeatClockView;

    closed spec fn view(&self) -> BeatClockView {
        BeatClockView {
            bpm: self.bpm as nat,
            beat_time: self.beat_time as nat,
            last_update: self.last_update as nat,
        }
    }
}

impl BeatClock {
    /// A valid clock: see `BeatClockView::wf`.
    pub open spec fn wf(&self) -> bool {
        self@.wf()
    }

    /// A clock at the start of a beat, last updated at time zero; `None`
    /// where `bpm` is zero or above `MAX_BPM`.
    pub fn new(bpm: u32) -> (made: Option<BeatClock>)
        ensures
            made.is_some() <==> 0 < bpm <= MAX_BPM,
            made matches Some(clock) ==> clock.wf() && clock@ == (BeatClockView {
                bpm: bpm as nat,
                beat_time: 0,
                last_update: 0,
            }),
    {
        if bpm == 0 || bpm > MAX_BPM {
            return None;
        }
        let clock = BeatClock { bpm, beat_time: 0, last_update: 0 };
        proof {
            clock@.lemma_beat_lasts();
        }
        Some(clock)
    }

    /// The tempo, in beats per minute.
    pub fn bpm(&self) -> (bpm: u32)
        ensures
            bpm == self@.bpm,
    {
        self.bpm
    }

    /// The microseconds elapsed within the current beat.
    pub fn beat_time(&self) -> (time: u64)
        ensures
            time == self@.beat_time,
    {
        self.beat_time
    }

    /// The time of the last update, in microseconds.
    pub fn last_update(&self) -> (time: u64)
        ensures
            time == self@.last_update,
    {
        self.last_update
    }

    /// The length of a beat, in whole microseconds.
    pub fn beat_duration(&self) -> (duration: u64)
        requires
            self.wf(),
        ensures
            duration == self@.beat_duration(),
            duration >= 1,
    {
        proof {
            self@.lemma_beat_lasts();
        }
        MICROS_PER_MINUTE / (self.bpm as u64)
    }

    /// Moves the clock on by `elapsed` microseconds, and says where the tick
    /// stands in its beat.
    pub fn advance(&mut self, elapsed: u64) -> (beat: Beat)
        requires
            old(self).wf(),
        ensures
            final(self)@ == old(self)@.advanced(elapsed as nat),
            final(self).wf(),
            beat == old(self)@.beat_after(elapsed as nat),
    {
        let duration: u64 = self.beat_duration();
        let boundary: bool = elapsed >= duration - self.beat_time;
        if boundary {
            self.beat_time = 0;
        } else {
            self.beat_time = self.beat_time + elapsed;
        }
        Beat { time: self.beat_time, duration, boundary }
    }

    /// Moves the clock on to the time `now`, in microseconds: by what has
    /// elapsed since the last update, or by nothing where `now` lies before
    /// it.
    pub fn update(&mut self, now: u64) -> (beat: Beat)
        requires
            old(self).wf(),
        ensures
            final(self)@ == old(self)@.updated(now as nat),
            final(self).wf(),
            beat == old(self)@.beat_after(old(self)@.elapsed_at(now as nat)),
    {
        let elapsed: u64 = if now >= self.last_update {
            now - self.last_update
        } else {
            0
        };
        let beat: Beat = self.advance(elapsed);
        self.last_update = now;
        beat
    }
}

} // verus!
