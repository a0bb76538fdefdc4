//! The render callback: applies what the bridge holds, then makes one buffer
//! of samples.

use vstd::prelude::*;
use crate::bridge::Bridge;
use crate::oscillator::{PHASE_ONE, Wavetable, next_phase, phase_increment, wave_wf};
use crate::state::{AudioState, AudioStateView, Command};

verus! {

/// The state `count` samples later.
pub open spec fn rendered(
    state: AudioStateView,
    wave: Seq<i64>,
    sample_rate: int,
    count: nat,
) -> AudioStateView
    decreases count,
{
    if count == 0 {
        state
    } else {
        rendered(state, wave, sample_rate, (count - 1) as nat).stepped(wave, sample_rate)
    }
}

/// The sample at place `index` of a buffer that is rendered from `state`.
pub open spec fn sample(state: AudioStateView, wave: Seq<i64>, sample_rate: int, index: nat) -> int {
    rendered(state, wave, sample_rate, index).output_sample(wave, sample_rate)
}

/// However many samples are rendered, a valid state is valid still.
pub proof fn lemma_rendered_wf(state: AudioStateView, wave: Seq<i64>, sample_rate: int, count: nat)
    requires
        state.wf(),
        wave_wf(wave),
        0 <= sample_rate,
    ensures
        rendered(state, wave, sample_rate, count).wf(),
    decreases count,
{
    if count > 0 {
        lemma_rendered_wf(state, wave, sample_rate, (count - 1) as nat);
        rendered(state, wave, sample_rate, (count - 1) as nat).lemma_stepped_wf(
            wave,
            sample_rate,
        );
    }
}

/// Rendering leaves what the commands set as it is, and runs the phase on:
/// after `count` samples the phase has moved by `count` increments of the
/// frequency over the sample rate, taken back into the cycle.
pub proof fn lemma_phase_runs_on(
    state: AudioStateView,
    wave: Seq<i64>,
    sample_rate: int,
    count: nat,
)
    requires
        state.phase < PHASE_ONE,
    ensures
        rendered(state, wave, sample_rate, count).frequency == state.frequency,
        rendered(state, wave, sample_rate, count).envelope == state.envelope,
        rendered(state, wave, sample_rate, count).playing == state.playing,
        rendered(state, wave, sample_rate, count).delay_bypassed == state.delay_bypassed,
        rendered(state, wave, sample_rate, count).phase == (state.phase + count * phase_increment(
            state.frequency as int,
            sample_rate,
        )) % (PHASE_ONE as int),
    decreases count,
{
    let step = phase_increment(state.frequency as int, sample_rate);
    let one = PHASE_ONE as int;
    if count == 0 {
        assert(count * step == 0);
        vstd::arithmetic::div_mod::lemma_small_mod(state.phase, PHASE_ONE as nat);
    } else {
        lemma_phase_runs_on(state, wave, sample_rate, (count - 1) as nat);
        let before = state.phase + (count - 1) * step;
        assert(before + step == state.phase + count * step) by (nonlinear_arith)
            requires
                before == state.phase + (count - 1) * step,
        ;
        vstd::arithmetic::div_mod::lemma_add_mod_noop_right(step, before, one);
        vstd::arithmetic::div_mod::lemma_mod_bound(before + step, one);
        assert(before % one + step == step + before % one);
    }
}

/// Two buffers rendered back to back are one buffer cut in two: the state
/// after both is the state after one buffer of their joint length, and each
/// sample of the second is the sample that follows in the long one. So the
/// phase runs on across the boundary between buffers.
pub proof fn lemma_render_continues(
    state: AudioStateView,
    wave: Seq<i64>,
    sample_rate: int,
    first: nat,
    second: nat,
)
    ensures
        rendered(state, wave, sample_rate, first + second) == rendered(
            rendered(state, wave, sample_rate, first),
            wave,
            sample_rate,
            second,
        ),
        sample(state, wave, sample_rate, first + second) == sample(
            rendered(state, wave, sample_rate, first),
            wave,
            sample_rate,
            second,
        ),
    decreases second,
{
    if second > 0 {
        lemma_render_continues(state, wave, sample_rate, first, (second - 1) as nat);
    }
}

/// A change of frequency makes no jump: the phase stays where it is, the
/// sample that goes out next is the one that would have gone out without the
/// change, and only from there on does the phase run at the new frequency.
pub proof fn lemma_frequency_change_is_smooth(
    state: AudioStateView,
    command: Command,
    wave: Seq<i64>,
    sample_rate: int,
)
    requires
        command is SetFrequency,
    ensures
        state.applied(command).phase == state.phase,
        state.applied(command).output_sample(wave, sample_rate) == state.output_sample(
            wave,
            sample_rate,
        ),
        state.applied(command).stepped(wave, sample_rate).phase == next_phase(
            state.phase as int,
            state.applied(command).frequency as int,
            sample_rate,
        ),
        state.applied(command).stepped(wave, sample_rate).delay == state.stepped(
            wave,
            sample_rate,
        ).delay,
{
    crate::oscillator::lemma_next_phase_in_cycle(
        state.phase as int,
        state.applied(command).frequency as int,
        sample_rate,
    );
}

/// While the delay is bypassed, what goes out is the dry signal, and the
/// delay line keeps its settings, its stored samples and its write cursor.
pub proof fn lemma_bypass_keeps_line(
    state: AudioStateView,
    wave: Seq<i64>,
    sample_rate: int,
    count: nat,
)
    requires
        state.delay_bypassed,
    ensures
        rendered(state, wave, sample_rate, count).delay == state.delay,
        rendered(state, wave, sample_rate, count).delay_bypassed,
        sample(state, wave, sample_rate, count) == rendered(
            state,
            wave,
            sample_rate,
            count,
        ).dry_sample(wave),
    decreases count,
{
    if count > 0 {
        lemma_bypass_keeps_line(state, wave, sample_rate, (count - 1) as nat);
    }
    let then = rendered(state, wave, sample_rate, count);
    if !then.playing {
        assert(crate::oscillator::wave_sample(wave, then.phase as int) * 0 == 0);
    }
}

/// While nothing plays, every sample that goes out is silence, whether the
/// delay is bypassed or engaged and whatever its line holds; the dry signal
/// is silence too.
pub proof fn lemma_not_playing_is_silent(
    state: AudioStateView,
    wave: Seq<i64>,
    sample_rate: int,
    count: nat,
)
    requires
        !state.playing,
    ensures
        !rendered(state, wave, sample_rate, count).playing,
        sample(state, wave, sample_rate, count) == 0,
        rendered(state, wave, sample_rate, count).dry_sample(wave) == 0,
    decreases count,
{
    if count > 0 {
        lemma_not_playing_is_silent(state, wave, sample_rate, (count - 1) as nat);
    }
    let then = rendered(state, wave, sample_rate, count);
    assert(crate::oscillator::wave_sample(wave, then.phase as int) * 0 == 0);
}

/// Renders one buffer: applies every command that `bridge` holds, the one
/// queued first first, and then fills `buffer` with as many samples as it
/// is long, one per frame. No command is applied between two samples of a
/// buffer. While nothing plays every sample is silence.
pub fn render(
    state: &mut AudioState,
    bridge: &mut Bridge,
    wave: &Wavetable,
    buffer: &mut Vec<i64>,
    sample_rate: u32,
)
    requires
        old(state).wf(),
        wave.wf(),
        sample_rate > 0,
    ensures
        final(bridge)@ == Seq::<Command>::empty(),
        final(bridge).accepting() == old(bridge).accepting(),
        final(buffer)@.len() == old(buffer)@.len(),
        final(state)@ == rendered(
            old(state)@.applied_all(old(bridge)@),
            wave@,
            sample_rate as int,
            old(buffer)@.len(),
        ),
        forall|i: int|
            0 <= i < old(buffer)@.len() ==> #[trigger] final(buffer)@[i] == sample(
                old(state)@.applied_all(old(bridge)@),
                wave@,
                sample_rate as int,
                i as nat,
            ),
        final(state).wf(),
{
    bridge.drain_into(state);
    let ghost start = state@;
    let frames: usize = buffer.len();
    let mut i: usize = 0;
    while i < frames
        invariant
            i <= frames,
            frames == buffer@.len(),
            state.wf(),
            wave.wf(),
            sample_rate > 0,
            state@ == rendered(start, wave@, sample_rate as int, i as nat),
            forall|j: int|
                0 <= j < i ==> #[trigger] buffer@[j] == sample(
                    start,
                    wave@,
                    sample_rate as int,
                    j as nat,
                ),
        decreases frames - i,
    {
        let out: i64 = state.synthesize(wave, sample_rate);
        buffer[i] = out;
        i += 1;
    }
}

} // verus!
