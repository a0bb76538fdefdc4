//! The control loop's side: on each tick the beat clock moves on, the chain
//! is resolved, and the targets go onto the bridge.

use vstd::prelude::*;
use crate::bridge::Bridge;
use crate::chain::{
    Node, NodeView, Targets, after_resolve, chain_view, chain_wf, lemma_resolved_frequency, resolve,
    resolved,
};
use crate::clock::{Beat, BeatClock, BeatClockView, MAX_BPM};
use crate::oscillator::{BASE_FREQUENCY, MAX_FREQUENCY, MIN_FREQUENCY};

verus! {

/// What the control loop keeps from tick to tick: the beat clock, and the
/// target frequency that it decided last, from which the frequency drifts
/// while no sequencer drives it.
#[derive(Clone, Copy, Debug, PartialEq, Eq)]
pub struct Control {
    clock: BeatClock,
    frequency: u64,
}

/// What a `Control` holds.
pub struct ControlView {
    pub clock: BeatClockView,
    pub frequency: nat,
}

impl ControlView {
    /// The clock is valid, and the frequency is above zero and at most
    /// `MAX_FREQUENCY`.
    pub open spec fn wf(self) -> bool {
        &&& self.clock.wf()
        &&& MIN_FREQUENCY <= self.frequency <= MAX_FREQUENCY
    }

    /// The targets that a tick at `beat` decides for `chain`.
    pub open spec fn targets_at(self, chain: Seq<NodeView>, beat: Beat, drift: i64) -> Targets {
        resolved(chain, beat, drift, self.frequency as u64)
    }
}

impl View for Control {
    type V = ControlView;

    closed spec fn view(&self) -> ControlView {
        ControlView { clock: self.clock@, frequency: self.frequency as nat }
    }
}

impl Control {
    /// A valid control state: see `ControlView::wf`.
    pub open spec fn wf(&self) -> bool {
        self@.wf()
    }

    /// The control state at the start: a clock at `bpm` beats per minute at
    /// the start of a beat, and the frequency at `BASE_FREQUENCY`; `None`
    /// where `bpm` is zero or above `MAX_BPM`.
    pub fn new(bpm: u32) -> (made: Option<Control>)
        ensures
            made.is_some() <==> 0 < bpm <= MAX_BPM,
            made matches Some(control) ==> control.wf() && control@ == (ControlView {
                clock: BeatClockView { bpm: bpm as nat, beat_time: 0, last_update: 0 },
                frequency: BASE_FREQUENCY as nat,
            }),
    {
        match BeatClock::new(bpm) {
            Some(clock) => Some(Control { clock, frequency: BASE_FREQUENCY }),
            None => None,
        }
    }

    /// The beat clock.
    pub fn clock(&self) -> (clock: BeatClock)
        ensures
            clock@ == self@.clock,
    {
        self.clock
    }

    /// The target frequency decided last, in microhertz.
    pub fn frequency(&self) -> (frequency: u64)
        ensures
            frequency == self@.frequency,
    {
        self.frequency
    }

    /// Resolves the chain at `beat`, remembers the target frequency where
    /// this decides one, and hands the commands that carry the targets to
    /// `bridge`. Where the frequency stays as it is, no frequency command is
    /// handed over and the frequency held stays held.
    pub fn dispatch(
        &mut self,
        chain: &mut Vec<Node>,
        bridge: &mut Bridge,
        beat: Beat,
        drift: i64,
    ) -> (targets: Targets)
        requires
            old(self).wf(),
            chain_wf(chain_view(old(chain)@)),
        ensures
            targets == old(self)@.targets_at(chain_view(old(chain)@), beat, drift),
            final(self)@ == (ControlView {
                frequency: targets.frequency_after(old(self)@.frequency),
                ..old(self)@
            }),
            final(self).wf(),
            chain_view(final(chain)@) == after_resolve(chain_view(old(chain)@), beat),
            chain_wf(chain_view(final(chain)@)),
            final(bridge).accepting() == old(bridge).accepting(),
            final(bridge)@ == if old(bridge).accepting() {
                old(bridge)@ + targets.commands()
            } else {
                old(bridge)@
            },
    {
        proof {
            lemma_resolved_frequency(chain_view(chain@), beat, drift, self.frequency);
        }
        let targets: Targets = resolve(chain, beat, drift, self.frequency);
        match targets.frequency {
            Some(frequency) => {
                self.frequency = frequency;
            },
            None => {},
        }
        targets.enqueue(bridge);
        targets
    }

    /// One control tick, `elapsed` microseconds after the last: moves the
    /// clock on, resolves the chain where the tick stands in its beat, and
    /// hands the commands to `bridge`. `drift` is the offset by which the
    /// frequency drifts on this tick where no sequencer drives it.
    pub fn advance(
        &mut self,
        chain: &mut Vec<Node>,
        bridge: &mut Bridge,
        elapsed: u64,
        drift: i64,
    ) -> (targets: Targets)
        requires
            old(self).wf(),
            chain_wf(chain_view(old(chain)@)),
        ensures
            targets == old(self)@.targets_at(
                chain_view(old(chain)@),
                old(self)@.clock.beat_after(elapsed as nat),
                drift,
            ),
            final(self)@ == (ControlView {
                clock: old(self)@.clock.advanced(elapsed as nat),
                frequency: targets.frequency_after(old(self)@.frequency),
            }),
            final(self).wf(),
            chain_view(final(chain)@) == after_resolve(
                chain_view(old(chain)@),
                old(self)@.clock.beat_after(elapsed as nat),
            ),
            chain_wf(chain_view(final(chain)@)),
            final(bridge).accepting() == old(bridge).accepting(),
            final(bridge)@ == if old(bridge).accepting() {
                old(bridge)@ + targets.commands()
            } else {
                old(bridge)@
            },
    {
        let beat: Beat = self.clock.advance(elapsed);
        self.dispatch(chain, bridge, beat, drift)
    }

    /// One control tick at the time `now`, in microseconds: as `advance`, by
    /// what has elapsed since the clock's last update.
    pub fn update(
        &mut self,
        chain: &mut Vec<Node>,
        bridge: &mut Bridge,
        now: u64,
        drift: i64,
    ) -> (targets: Targets)
        requires
            old(self).wf(),
            chain_wf(chain_view(old(chain)@)),
        ensures
            targets == old(self)@.targets_at(
                chain_view(old(chain)@),
                old(self)@.clock.beat_after(old(self)@.clock.elapsed_at(now as nat)),
                drift,
            ),
            final(self)@ == (ControlView {
                clock: old(self)@.clock.updated(now as nat),
                frequency: targets.frequency_after(old(self)@.frequency),
            }),
            final(self).wf(),
            chain_view(final(chain)@) == after_resolve(
                chain_view(old(chain)@),
                old(self)@.clock.beat_after(old(self)@.clock.elapsed_at(now as nat)),
            ),
            chain_wf(chain_view(final(chain)@)),
            final(bridge).accepting() == old(bridge).accepting(),
            final(bridge)@ == if old(bridge).accepting() {
                old(bridge)@ + targets.commands()
            } else {
                old(bridge)@
            },
    {
        let beat: Beat = self.clock.update(now);
        self.dispatch(chain, bridge, beat, drift)
    }
}

} // verus!
