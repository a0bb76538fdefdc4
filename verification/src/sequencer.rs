//! The step sequencer: a cycle of frequency multipliers, one step per beat.

use vstd::prelude::*;

verus! {

/// A cycle of frequency multipliers, in millionths, and the step that comes
/// next.
#[derive(Clone, Debug)]
pub struct Sequencer {
    sequence: Vec<u32>,
    step: usize,
}

/// What a `Sequencer` holds.
pub struct SequencerView {
    pub sequence: Seq<u32>,
    pub step: nat,
}

impl SequencerView {
    /// Every multiplier is positive, and the step lies within the cycle (at
    /// its start where the cycle is empty).
    pub open spec fn wf(self) -> bool {
        &&& forall|i: int| 0 <= i < self.sequence.len() ==> self.sequence[i] > 0
        &&& self.step < self.sequence.len() || (self.sequence.len() == 0 && self.step == 0)
    }

    /// The multiplier that the next step gives.
    pub open spec fn current(self) -> u32
        recommends
            self.step < self.sequence.len(),
    {
        self.sequence[self.step as int]
    }

    /// The sequencer after one step: the same cycle, one step further, back
    /// at the start after the last.
    pub open spec fn advanced(self) -> SequencerView
        recommends
            self.sequence.len() > 0,
    {
        SequencerView {
            sequence: self.sequence,
            step: (self.step + 1) % self.sequence.len(),
        }
    }

    /// The sequencer after `n` steps.
    pub open spec fn advanced_by(self, n: nat) -> SequencerView
        decreases n,
    {
        if n == 0 {
            self
        } else {
            self.advanced_by((n - 1) as nat).advanced()
        }
    }

    /// Steps keep the cycle and move the step by their number, modulo the
    /// cycle's length.
    pub proof fn lemma_advanced_by(self, n: nat)
        requires
            self.wf(),
            self.sequence.len() > 0,
        ensures
            self.advanced_by(n).wf(),
            self.advanced_by(n).sequence == self.sequence,
            self.advanced_by(n).step == (self.step + n) % self.sequence.len(),
        decreases n,
    {
        let len = self.sequence.len() as int;
        if n == 0 {
            vstd::arithmetic::div_mod::lemma_small_mod(self.step, len as nat);
        } else {
            self.lemma_advanced_by((n - 1) as nat);
            vstd::arithmetic::div_mod::lemma_add_mod_noop_right(1, self.step + n - 1, len);
            vstd::arithmetic::div_mod::lemma_mod_pos_bound((self.step + n) as int, len);
        }
    }

    /// After as many steps as the cycle is long, the sequencer is where it
    /// began, and gives the same multiplier again.
    pub proof fn lemma_full_cycle(self)
        requires
            self.wf(),
            self.sequence.len() > 0,
        ensures
            self.advanced_by(self.sequence.len()) == self,
            self.advanced_by(self.sequence.len()).current() == self.current(),
    {
        let len = self.sequence.len() as int;
        self.lemma_advanced_by(self.sequence.len());
        vstd::arithmetic::div_mod::lemma_mod_add_multiples_vanish(self.step as int, len);
        vstd::arithmetic::div_mod::lemma_small_mod(self.step, len as nat);
    }
}

impl View for Sequencer {
    type V = SequencerView;

    closed spec fn view(&self) -> SequencerView {
        SequencerView { sequence: self.sequence@, step: self.step as nat }
    }
}

impl Sequencer {
    /// A valid sequencer: see `SequencerView::wf`.
    pub open spec fn wf(&self) -> bool {
        self@.wf()
    }

    /// A sequencer over `sequence`, at its first step; `None` where a
    /// multiplier is zero. An empty cycle is accepted: such a sequencer is
    /// never stepped.
    pub fn new(sequence: Vec<u32>) -> (made: Option<Sequencer>)
        ensures
            made.is_some() <==> forall|i: int| 0 <= i < sequence.len() ==> sequence[i] > 0,
            made matches Some(s) ==> s.wf() && s@.sequence == sequence@ && s@.step == 0,
    {
        let mut i: usize = 0;
        while i < sequence.len()
            invariant
                i <= sequence.len(),
                forall|j: int| 0 <= j < i ==> sequence[j] > 0,
            decreases sequence.len() - i,
        {
            if sequence[i] == 0 {
                return None;
            }
            i += 1;
        }
        Some(Sequencer { sequence, step: 0 })
    }

    /// How many multipliers the cycle holds.
    pub fn len(&self) -> (n: usize)
        ensures
            n == self@.sequence.len(),
    {
        self.sequence.len()
    }

    /// Whether the cycle holds no multiplier.
    pub fn is_empty(&self) -> (empty: bool)
        ensures
            empty == (self@.sequence.len() == 0),
    {
        self.sequence.len() == 0
    }

    /// The index of the step that comes next.
    pub fn step(&self) -> (step: usize)
        ensures
            step == self@.step,
    {
        self.step
    }

    /// Gives the multiplier of the current step and moves on to the next,
    /// back to the first after the last.
    pub fn advance(&mut self) -> (value: u32)
        requires
            old(self).wf(),
            old(self)@.sequence.len() > 0,
        ensures
            value == old(self)@.current(),
            value > 0,
            final(self)@ == old(self)@.advanced(),
            final(self).wf(),
    {
        assert(self.step < self.sequence.len());
        let value: u32 = self.sequence[self.step];
        self.step = (self.step + 1) % self.sequence.len();
        value
    }
}

} // verus!
