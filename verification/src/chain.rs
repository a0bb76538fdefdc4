//! The chain of nodes, and its resolution into target parameters.

use vstd::prelude::*;
use crate::bridge::Bridge;
use crate::clock::Beat;
use crate::delay::DelaySettings;
use crate::envelope::Envelope;
use crate::oscillator::{BASE_FREQUENCY, MAX_FREQUENCY, MIN_FREQUENCY};
use crate::sequencer::{Sequencer, SequencerView};
use crate::state::{AudioStateView, Command, clamp_frequency, clamp_gain};
use crate::units::UNIT;

verus! {

/// The kinds of node.
#[derive(Clone, Copy, Debug, PartialEq, Eq, Structural)]
pub enum NodeKind {
    Oscillator,
    Sequencer,
    Envelope,
    Delay,
}

/// One processing unit of the chain, with the state of its kind.
#[derive(Clone, Debug)]
pub enum Node {
    Oscillator,
    Sequencer(Sequencer),
    Envelope(Envelope),
    Delay(DelaySettings),
}

/// What a `Node` holds.
pub enum NodeView {
    Oscillator,
    Sequencer(SequencerView),
    Envelope(Envelope),
    Delay(DelaySettings),
}

impl NodeView {
    /// The kind of this node.
    pub open spec fn kind(self) -> NodeKind {
        match self {
            NodeView::Oscillator => NodeKind::Oscillator,
            NodeView::Sequencer(_) => NodeKind::Sequencer,
            NodeView::Envelope(_) => NodeKind::Envelope,
            NodeView::Delay(_) => NodeKind::Delay,
        }
    }

    /// A sequencer node holds a valid sequencer; any other node is valid as
    /// it is.
    pub open spec fn wf(self) -> bool {
        self matches NodeView::Sequencer(sequencer) ==> sequencer.wf()
    }
}

impl View for Node {
    type V = NodeView;

    open spec fn view(&self) -> NodeView {
        match self {
            Node::Oscillator => NodeView::Oscillator,
            Node::Sequencer(sequencer) => NodeView::Sequencer(sequencer@),
            Node::Envelope(envelope) => NodeView::Envelope(*envelope),
            Node::Delay(settings) => NodeView::Delay(*settings),
        }
    }
}

impl Node {
    /// The kind of this node.
    pub fn kind(&self) -> (kind: NodeKind)
        ensures
            kind == self@.kind(),
    {
        match self {
            Node::Oscillator => NodeKind::Oscillator,
            Node::Sequencer(_) => NodeKind::Sequencer,
            Node::Envelope(_) => NodeKind::Envelope,
            Node::Delay(_) => NodeKind::Delay,
        }
    }
}

/// What a chain holds, node by node.
pub open spec fn chain_view(chain: Seq<Node>) -> Seq<NodeView> {
    Seq::new(chain.len(), |i: int| chain[i]@)
}

/// Every node of the chain is valid.
pub open spec fn chain_wf(chain: Seq<NodeView>) -> bool {
    forall|i: int| 0 <= i < chain.len() ==> (#[trigger] chain[i]).wf()
}

/// The node at `i` is of `kind`, and no node before it is.
pub open spec fn is_first(chain: Seq<NodeView>, kind: NodeKind, i: int) -> bool {
    &&& 0 <= i < chain.len()
    &&& chain[i].kind() == kind
    &&& forall|j: int| 0 <= j < i ==> (#[trigger] chain[j]).kind() != kind
}

/// The place of the active node of `kind`: the first of that kind in the
/// chain, if there is one. Later nodes of the kind count for nothing.
pub open spec fn first_of_kind(chain: Seq<NodeView>, kind: NodeKind) -> Option<int> {
    if exists|i: int| is_first(chain, kind, i) {
        Some(choose|i: int| is_first(chain, kind, i))
    } else {
        None
    }
}

/// A chain has one first node of a kind at most.
pub proof fn lemma_first_is_unique(chain: Seq<NodeView>, kind: NodeKind, i: int)
    requires
        is_first(chain, kind, i),
    ensures
        first_of_kind(chain, kind) == Some(i),
{
    let chosen = choose|k: int| is_first(chain, kind, k);
    if chosen < i {
        assert(chain[chosen].kind() != kind);
    } else if i < chosen {
        assert(chain[i].kind() != kind);
    }
}

/// A chain without a node of a kind has no first node of that kind.
pub proof fn lemma_absent_kind(chain: Seq<NodeView>, kind: NodeKind)
    requires
        forall|j: int| 0 <= j < chain.len() ==> (#[trigger] chain[j]).kind() != kind,
    ensures
        first_of_kind(chain, kind).is_none(),
{
}

/// A chain that holds a node of a kind has a first node of that kind.
pub proof fn lemma_present_kind(chain: Seq<NodeView>, kind: NodeKind, at: int)
    requires
        0 <= at < chain.len(),
        chain[at].kind() == kind,
    ensures
        first_of_kind(chain, kind) matches Some(i) && is_first(chain, kind, i) && i <= at,
    decreases at,
{
    if exists|j: int| 0 <= j < at && (#[trigger] chain[j]).kind() == kind {
        let j = choose|j: int| 0 <= j < at && (#[trigger] chain[j]).kind() == kind;
        lemma_present_kind(chain, kind, j);
    } else {
        assert(is_first(chain, kind, at));
        lemma_first_is_unique(chain, kind, at);
    }
}

/// The target parameters that one tick decides.
#[derive(Clone, Copy, Debug, PartialEq, Eq)]
pub struct Targets {
    /// Whether anything sounds.
    pub playing: bool,
    /// The frequency, in microhertz; `None` where it stays as it is.
    pub frequency: Option<u64>,
    /// The gain, in millionths.
    pub envelope: u32,
    /// The settings of the delay; `None` where the delay is bypassed.
    pub delay: Option<DelaySettings>,
}

impl Targets {
    /// The command that carries the target frequency: none where the
    /// frequency stays as it is.
    pub open spec fn frequency_commands(self) -> Seq<Command> {
        match self.frequency {
            Some(frequency) => seq![Command::SetFrequency(frequency)],
            None => Seq::<Command>::empty(),
        }
    }

    /// The command that carries the delay's target.
    pub open spec fn delay_command(self) -> Command {
        match self.delay {
            Some(settings) => Command::EngageDelay(settings),
            None => Command::BypassDelay,
        }
    }

    /// The commands that carry these targets, in the order in which the
    /// kinds are resolved: oscillator, sequencer, envelope, delay. A target
    /// frequency that stays as it is takes no command.
    pub open spec fn commands(self) -> Seq<Command> {
        seq![Command::SetPlaying(self.playing)] + self.frequency_commands() + seq![
            Command::SetEnvelope(self.envelope),
            self.delay_command(),
        ]
    }

    /// The target frequency that the control loop holds after these targets,
    /// where it held `held` before them.
    pub open spec fn frequency_after(self, held: nat) -> nat {
        match self.frequency {
            Some(frequency) => frequency as nat,
            None => held,
        }
    }

    /// The state once these targets have reached it: what plays, the gain
    /// and the delay's settings are as the targets say, and so is the
    /// frequency unless it stays as it is, each clamped to its valid range;
    /// the phase and what the delay line holds are as they were.
    pub open spec fn settled(self, state: AudioStateView) -> AudioStateView {
        AudioStateView {
            playing: self.playing,
            frequency: match self.frequency {
                Some(frequency) => clamp_frequency(frequency as int),
                None => state.frequency,
            },
            envelope: clamp_gain(self.envelope as int),
            delay: match self.delay {
                Some(settings) => crate::delay::DelayView {
                    settings: settings.clamped(),
                    ..state.delay
                },
                None => state.delay,
            },
            delay_bypassed: self.delay.is_none(),
            ..state
        }
    }

    /// The commands that carry the targets bring the state to where the
    /// targets have settled.
    pub proof fn lemma_commands_settle(self, state: AudioStateView)
        ensures
            state.applied_all(self.commands()) == self.settled(state),
    {
        let head = seq![Command::SetPlaying(self.playing)];
        let tail = seq![Command::SetEnvelope(self.envelope), self.delay_command()];
        let played = state.applied(Command::SetPlaying(self.playing));
        state.lemma_applied_all_one(Command::SetPlaying(self.playing));
        state.lemma_applied_all_concat(head, self.frequency_commands());
        state.lemma_applied_all_concat(head + self.frequency_commands(), tail);
        let tuned = played.applied_all(self.frequency_commands());
        match self.frequency {
            Some(frequency) => {
                played.lemma_applied_all_one(Command::SetFrequency(frequency));
            },
            None => {},
        }
        assert(tail =~= seq![Command::SetEnvelope(self.envelope)] + seq![self.delay_command()]);
        tuned.lemma_applied_all_concat(
            seq![Command::SetEnvelope(self.envelope)],
            seq![self.delay_command()],
        );
        tuned.lemma_applied_all_one(Command::SetEnvelope(self.envelope));
        tuned.applied(Command::SetEnvelope(self.envelope)).lemma_applied_all_one(
            self.delay_command(),
        );
    }

    /// Targets that reach the state a second time change nothing: the same
    /// resolution, repeated, leaves the state where the first left it.
    pub proof fn lemma_settled_is_idempotent(self, state: AudioStateView)
        ensures
            self.settled(self.settled(state)) == self.settled(state),
            state.applied_all(self.commands() + self.commands()) == state.applied_all(
                self.commands(),
            ),
    {
        self.lemma_commands_settle(state);
        self.lemma_commands_settle(self.settled(state));
        state.lemma_applied_all_concat(self.commands(), self.commands());
    }

    /// Targets whose frequency stays as it is leave the state's frequency
    /// alone: no command of theirs sets it.
    pub proof fn lemma_held_frequency_takes_no_command(self, state: AudioStateView)
        requires
            self.frequency.is_none(),
        ensures
            self.commands().len() == 3,
            forall|i: int|
                0 <= i < self.commands().len() ==> !((#[trigger] self.commands()[i])
                    is SetFrequency),
            state.applied_all(self.commands()).frequency == state.frequency,
    {
        self.lemma_commands_settle(state);
    }

    /// Hands the commands that carry these targets to `bridge`, in order.
    pub fn enqueue(&self, bridge: &mut Bridge)
        ensures
            final(bridge).accepting() == old(bridge).accepting(),
            final(bridge)@ == if old(bridge).accepting() {
                old(bridge)@ + self.commands()
            } else {
                old(bridge)@
            },
    {
        bridge.enqueue(Command::SetPlaying(self.playing));
        match self.frequency {
            Some(frequency) => {
                bridge.enqueue(Command::SetFrequency(frequency));
            },
            None => {},
        }
        bridge.enqueue(Command::SetEnvelope(self.envelope));
        match self.delay {
            Some(settings) => {
                bridge.enqueue(Command::EngageDelay(settings));
            },
            None => {
                bridge.enqueue(Command::BypassDelay);
            },
        }
        assert(bridge.accepting() ==> bridge@ =~= old(bridge)@ + self.commands());
    }
}

/// The frequency, in microhertz, that a sequencer's multiplier stands for:
/// that multiple of `BASE_FREQUENCY`.
pub open spec fn step_frequency(multiplier: u32) -> int {
    (BASE_FREQUENCY * multiplier) / (UNIT as int)
}

/// The place of the sequencer that drives the frequency: the first sequencer
/// of the chain, unless its cycle is empty.
pub open spec fn active_sequencer(chain: Seq<NodeView>) -> Option<int> {
    match first_of_kind(chain, NodeKind::Sequencer) {
        Some(i) => if chain[i]->Sequencer_0.sequence.len() > 0 {
            Some(i)
        } else {
            None
        },
        None => None,
    }
}

/// The frequency that has drifted by `offset` from `held`, kept above zero
/// and at most `MAX_FREQUENCY`.
pub open spec fn drifted(held: u64, offset: i64) -> nat {
    clamp_frequency(held + offset)
}

/// The targets that a chain resolves to at `beat`, where the target
/// frequency so far is `held`.
///
/// Something sounds if and only if the chain holds an oscillator. The
/// frequency is that of the active sequencer's current step on a tick that
/// crosses a beat boundary; on any other tick with an active sequencer it
/// stays as it is, and is no target; without an active sequencer it drifts
/// by `drift` from `held`. The gain is the first envelope's gain at `beat`,
/// and full gain without an envelope. The delay has the first delay node's
/// settings, clamped to their valid range, and is bypassed without one.
pub open spec fn resolved(chain: Seq<NodeView>, beat: Beat, drift: i64, held: u64) -> Targets {
    Targets {
        playing: first_of_kind(chain, NodeKind::Oscillator).is_some(),
        frequency: match active_sequencer(chain) {
            Some(i) => if beat.boundary {
                Some(step_frequency(chain[i]->Sequencer_0.current()) as u64)
            } else {
                None
            },
            None => Some(drifted(held, drift) as u64),
        },
        envelope: match first_of_kind(chain, NodeKind::Envelope) {
            Some(i) => chain[i]->Envelope_0.gain_at(beat.time as int, beat.duration as int) as u32,
            None => UNIT,
        },
        delay: match first_of_kind(chain, NodeKind::Delay) {
            Some(i) => Some(chain[i]->Delay_0.clamped()),
            None => None,
        },
    }
}

/// A target frequency is a valid frequency, and a valid frequency that the
/// control loop holds stays valid through a resolution.
pub proof fn lemma_resolved_frequency(chain: Seq<NodeView>, beat: Beat, drift: i64, held: u64)
    requires
        chain_wf(chain),
    ensures
        resolved(chain, beat, drift, held).frequency matches Some(frequency) ==> MIN_FREQUENCY
            <= frequency <= MAX_FREQUENCY,
        MIN_FREQUENCY <= held <= MAX_FREQUENCY ==> MIN_FREQUENCY <= resolved(
            chain,
            beat,
            drift,
            held,
        ).frequency_after(held as nat) <= MAX_FREQUENCY,
{
    if active_sequencer(chain).is_some() && beat.boundary {
        let i = active_sequencer(chain).unwrap();
        assert(chain[i].wf());
        lemma_step_frequency_bounds(chain[i]->Sequencer_0.current());
    }
}

/// While a sequencer is active, a tick inside a beat decides no frequency,
/// carries no frequency command, and leaves the sequencer and the whole
/// chain as they are: however many such ticks a beat holds, the step moves
/// by none of them.
pub proof fn lemma_inside_a_beat_nothing_moves(
    chain: Seq<NodeView>,
    beat: Beat,
    drift: i64,
    held: u64,
    state: AudioStateView,
)
    requires
        active_sequencer(chain).is_some(),
        !beat.boundary,
    ensures
        resolved(chain, beat, drift, held).frequency.is_none(),
        resolved(chain, beat, drift, held).frequency_after(held as nat) == held,
        forall|i: int|
            0 <= i < resolved(chain, beat, drift, held).commands().len() ==> !((
            #[trigger] resolved(chain, beat, drift, held).commands()[i]) is SetFrequency),
        state.applied_all(resolved(chain, beat, drift, held).commands()).frequency
            == state.frequency,
        after_resolve(chain, beat) == chain,
{
    resolved(chain, beat, drift, held).lemma_held_frequency_takes_no_command(state);
}

/// A positive multiplier stands for a valid frequency.
pub proof fn lemma_step_frequency_bounds(multiplier: u32)
    requires
        multiplier > 0,
    ensures
        MIN_FREQUENCY <= step_frequency(multiplier) <= MAX_FREQUENCY,
{
    assert(BASE_FREQUENCY * multiplier == 440 * multiplier * UNIT) by (nonlinear_arith);
    vstd::arithmetic::div_mod::lemma_div_multiples_vanish(440 * multiplier, UNIT as int);
    assert(440 * multiplier * UNIT == UNIT * (440 * multiplier)) by (nonlinear_arith);
}

/// The chain after its resolution at `beat`: on a tick that crosses a beat
/// boundary the active sequencer has moved one step; nothing else changes.
pub open spec fn after_resolve(chain: Seq<NodeView>, beat: Beat) -> Seq<NodeView> {
    match active_sequencer(chain) {
        Some(i) => if beat.boundary {
            chain.update(i, NodeView::Sequencer(chain[i]->Sequencer_0.advanced()))
        } else {
            chain
        },
        None => chain,
    }
}

/// Resolution keeps the length of the chain and the kind of every node, and
/// keeps a valid chain valid.
pub proof fn lemma_after_resolve_kinds(chain: Seq<NodeView>, beat: Beat)
    requires
        chain_wf(chain),
    ensures
        after_resolve(chain, beat).len() == chain.len(),
        forall|i: int|
            0 <= i < chain.len() ==> (#[trigger] after_resolve(chain, beat)[i]).kind()
                == chain[i].kind(),
        chain_wf(after_resolve(chain, beat)),
{
    if active_sequencer(chain).is_some() && beat.boundary {
        let i = active_sequencer(chain).unwrap();
        let sequencer = chain[i]->Sequencer_0;
        assert(chain[i].wf());
        sequencer.lemma_advanced_by(1);
        assert(sequencer.advanced_by(1) == sequencer.advanced_by(0).advanced());
    }
}

/// How many of `beats` cross a beat boundary.
pub open spec fn boundaries(beats: Seq<Beat>) -> nat
    decreases beats.len(),
{
    if beats.len() == 0 {
        0
    } else {
        boundaries(beats.drop_last()) + if beats.last().boundary {
            1nat
        } else {
            0nat
        }
    }
}

/// The chain after one resolution at each of `beats` in turn.
pub open spec fn after_ticks(chain: Seq<NodeView>, beats: Seq<Beat>) -> Seq<NodeView>
    decreases beats.len(),
{
    if beats.len() == 0 {
        chain
    } else {
        after_resolve(after_ticks(chain, beats.drop_last()), beats.last())
    }
}

/// A node that changes into one of its own kind leaves every first place
/// where it was.
pub proof fn lemma_update_keeps_first(
    chain: Seq<NodeView>,
    at: int,
    node: NodeView,
    kind: NodeKind,
)
    requires
        0 <= at < chain.len(),
        node.kind() == chain[at].kind(),
    ensures
        first_of_kind(chain.update(at, node), kind) == first_of_kind(chain, kind),
{
    let changed = chain.update(at, node);
    assert forall|i: int| is_first(changed, kind, i) <==> is_first(chain, kind, i) by {
        if is_first(chain, kind, i) {
            assert forall|j: int| 0 <= j < i implies (#[trigger] changed[j]).kind() != kind by {
                assert(chain[j].kind() != kind);
            }
        }
        if is_first(changed, kind, i) {
            assert forall|j: int| 0 <= j < i implies (#[trigger] chain[j]).kind() != kind by {
                assert(changed[j].kind() != kind);
            }
        }
    }
}

/// Exactly one step for each beat boundary: after any run of ticks the
/// active sequencer has moved by as many steps as ticks crossed a boundary,
/// it is still the active sequencer, and every other node is as it was.
pub proof fn lemma_one_step_per_boundary(chain: Seq<NodeView>, beats: Seq<Beat>, i: int)
    requires
        chain_wf(chain),
        active_sequencer(chain) == Some(i),
    ensures
        after_ticks(chain, beats) == chain.update(
            i,
            NodeView::Sequencer(chain[i]->Sequencer_0.advanced_by(boundaries(beats))),
        ),
        active_sequencer(after_ticks(chain, beats)) == Some(i),
        chain_wf(after_ticks(chain, beats)),
    decreases beats.len(),
{
    let steps = chain[i]->Sequencer_0;
    assert(chain[i].wf());
    steps.lemma_advanced_by(boundaries(beats));
    let moved = NodeView::Sequencer(steps.advanced_by(boundaries(beats)));
    lemma_update_keeps_first(chain, i, moved, NodeKind::Sequencer);
    if beats.len() == 0 {
        assert(chain.update(i, moved) =~= chain);
    } else {
        lemma_one_step_per_boundary(chain, beats.drop_last(), i);
        let earlier = after_ticks(chain, beats.drop_last());
        lemma_after_resolve_kinds(earlier, beats.last());
        if beats.last().boundary {
            assert(after_ticks(chain, beats) =~= chain.update(i, moved));
        }
    }
}

/// After as many beat boundaries as the active sequencer's cycle is long,
/// whatever other ticks lie between them, the chain is as it was: the
/// sequencer is back at the step where it began.
pub proof fn lemma_cycle_of_beats(chain: Seq<NodeView>, beats: Seq<Beat>, i: int)
    requires
        chain_wf(chain),
        active_sequencer(chain) == Some(i),
        boundaries(beats) == chain[i]->Sequencer_0.sequence.len(),
    ensures
        after_ticks(chain, beats) == chain,
{
    lemma_one_step_per_boundary(chain, beats, i);
    assert(chain[i].wf());
    chain[i]->Sequencer_0.lemma_full_cycle();
    assert(chain.update(i, chain[i]) =~= chain);
}

/// A chain without an oscillator is silent, whatever else it holds: its
/// targets say so, the commands that carry them leave any state not playing,
/// and the chain after its resolution holds no oscillator either, so that
/// the same is true of every later resolution.
pub proof fn lemma_no_oscillator_no_sound(
    chain: Seq<NodeView>,
    beat: Beat,
    drift: i64,
    held: u64,
    state: AudioStateView,
)
    requires
        chain_wf(chain),
        forall|i: int| 0 <= i < chain.len() ==> !((#[trigger] chain[i]) is Oscillator),
    ensures
        !resolved(chain, beat, drift, held).playing,
        !state.applied_all(resolved(chain, beat, drift, held).commands()).playing,
        forall|i: int|
            0 <= i < after_resolve(chain, beat).len() ==> !((#[trigger] after_resolve(
                chain,
                beat,
            )[i]) is Oscillator),
{
    lemma_absent_kind(chain, NodeKind::Oscillator);
    lemma_after_resolve_kinds(chain, beat);
    resolved(chain, beat, drift, held).lemma_commands_settle(state);
    assert forall|i: int| 0 <= i < after_resolve(chain, beat).len() implies !((
    #[trigger] after_resolve(chain, beat)[i]) is Oscillator) by {
        assert(after_resolve(chain, beat)[i].kind() == chain[i].kind());
    }
}

/// A chain with an oscillator sounds: the commands that carry its targets
/// leave any state playing.
pub proof fn lemma_oscillator_sounds(
    chain: Seq<NodeView>,
    beat: Beat,
    drift: i64,
    held: u64,
    state: AudioStateView,
    at: int,
)
    requires
        0 <= at < chain.len(),
        chain[at] is Oscillator,
    ensures
        resolved(chain, beat, drift, held).playing,
        state.applied_all(resolved(chain, beat, drift, held).commands()).playing,
{
    lemma_present_kind(chain, NodeKind::Oscillator, at);
    resolved(chain, beat, drift, held).lemma_commands_settle(state);
}

/// The place of the first node of `kind` in the chain, if there is one.
pub fn find_first(chain: &Vec<Node>, kind: NodeKind) -> (found: Option<usize>)
    ensures
        match found {
            Some(i) => first_of_kind(chain_view(chain@), kind) == Some(i as int) && is_first(
                chain_view(chain@),
                kind,
                i as int,
            ),
            None => first_of_kind(chain_view(chain@), kind).is_none(),
        },
{
    let mut i: usize = 0;
    while i < chain.len()
        invariant
            i <= chain.len(),
            forall|j: int| 0 <= j < i ==> (#[trigger] chain_view(chain@)[j]).kind() != kind,
        decreases chain.len() - i,
    {
        if chain[i].kind() == kind {
            proof {
                lemma_first_is_unique(chain_view(chain@), kind, i as int);
            }
            return Some(i);
        }
        i += 1;
    }
    proof {
        lemma_absent_kind(chain_view(chain@), kind);
    }
    None
}

/// Resolves the chain at `beat`: decides the targets, and moves the active
/// sequencer one step on a tick that crosses a beat boundary. `held` is the
/// target frequency so far, and `drift` the offset by which it drifts on this
/// tick where no sequencer drives it. With an active sequencer a tick inside
/// a beat decides no frequency.
pub fn resolve(chain: &mut Vec<Node>, beat: Beat, drift: i64, held: u64) -> (targets: Targets)
    requires
        chain_wf(chain_view(old(chain)@)),
    ensures
        targets == resolved(chain_view(old(chain)@), beat, drift, held),
        chain_view(final(chain)@) == after_resolve(chain_view(old(chain)@), beat),
        chain_wf(chain_view(final(chain)@)),
{
    let ghost before = chain_view(chain@);
    proof {
        lemma_after_resolve_kinds(before, beat);
    }
    let oscillator: Option<usize> = find_first(chain, NodeKind::Oscillator);
    let sequencer: Option<usize> = find_first(chain, NodeKind::Sequencer);
    let envelope: Option<usize> = find_first(chain, NodeKind::Envelope);
    let delay: Option<usize> = find_first(chain, NodeKind::Delay);

    let playing: bool = oscillator.is_some();
    let gain: u32 = match envelope {
        Some(i) => match &chain[i] {
            Node::Envelope(shape) => shape.value_at(beat.time, beat.duration),
            _ => UNIT,
        },
        None => UNIT,
    };
    let settings: Option<DelaySettings> = match delay {
        Some(i) => match &chain[i] {
            Node::Delay(settings) => Some(settings.validated()),
            _ => None,
        },
        None => None,
    };
    let frequency: Option<u64> = match sequencer {
        Some(i) => {
            assert(before[i as int].wf());
            match &mut chain[i] {
                Node::Sequencer(steps) => {
                    if steps.is_empty() {
                        Some(drift_from(held, drift))
                    } else if beat.boundary {
                        Some(frequency_of(steps.advance()))
                    } else {
                        None
                    }
                },
                _ => None,
            }
        },
        None => Some(drift_from(held, drift)),
    };
    assert(chain_view(chain@) =~= after_resolve(before, beat));
    Targets { playing, frequency, envelope: gain, delay: settings }
}

/// The frequency that a sequencer's multiplier stands for.
pub fn frequency_of(multiplier: u32) -> (frequency: u64)
    ensures
        frequency == step_frequency(multiplier),
{
    assert(BASE_FREQUENCY * multiplier <= 440_000_000 * 0xFFFF_FFFF) by (nonlinear_arith)
        requires
            0 <= multiplier <= 0xFFFF_FFFF,
    ;
    (BASE_FREQUENCY * (multiplier as u64)) / 1_000_000
}

/// The frequency that has drifted by `offset` from `held`.
pub fn drift_from(held: u64, offset: i64) -> (frequency: u64)
    ensures
        frequency == drifted(held, offset),
        MIN_FREQUENCY <= frequency <= MAX_FREQUENCY,
{
    let moved: i128 = (held as i128) + (offset as i128);
    if moved < MIN_FREQUENCY as i128 {
        MIN_FREQUENCY
    } else if moved > MAX_FREQUENCY as i128 {
        MAX_FREQUENCY
    } else {
        moved as u64
    }
}

} // verus!
