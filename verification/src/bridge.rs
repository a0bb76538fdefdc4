//! The parameter bridge: the queue that carries commands, in the order they
//! were decided, from the control loop to the render callback.

use vstd::prelude::*;
use std::collections::VecDeque;
use crate::state::{AudioState, Command};

verus! {

/// A first-in, first-out queue of commands.
///
/// The control loop enqueues and never waits. The render callback drains
/// whatever is queued, possibly nothing, and never waits either. While the
/// bridge is closed (the stream is paused or gone) what is enqueued is
/// dropped, and the caller is not told.
pub struct Bridge {
    queue: VecDeque<Command>,
    open: bool,
}

impl View for Bridge {
    type V = Seq<Command>;

    closed spec fn view(&self) -> Seq<Command> {
        self.queue@
    }
}

impl Bridge {
    /// Whether the bridge takes commands.
    pub closed spec fn accepting(&self) -> bool {
        self.open
    }

    /// What the queue holds once `command` has been handed to a bridge that
    /// holds `queued`: the command comes last where the bridge is open, and
    /// is dropped where it is closed.
    pub open spec fn after_enqueue(queued: Seq<Command>, open: bool, command: Command) -> Seq<
        Command,
    > {
        if open {
            queued.push(command)
        } else {
            queued
        }
    }

    /// What the queue holds once each of `commands` has been handed over in
    /// turn.
    pub open spec fn after_enqueue_all(
        queued: Seq<Command>,
        open: bool,
        commands: Seq<Command>,
    ) -> Seq<Command>
        decreases commands.len(),
    {
        if commands.len() == 0 {
            queued
        } else {
            Self::after_enqueue_all(
                Self::after_enqueue(queued, open, commands[0]),
                open,
                commands.drop_first(),
            )
        }
    }

    /// Handing commands over one by one, in order, queues them behind what
    /// was queued, in that order, where the bridge is open; it queues nothing
    /// where the bridge is closed.
    pub proof fn lemma_after_enqueue_all(queued: Seq<Command>, open: bool, commands: Seq<Command>)
        ensures
            Self::after_enqueue_all(queued, open, commands) == if open {
                queued + commands
            } else {
                queued
            },
        decreases commands.len(),
    {
        if commands.len() == 0 {
            assert(queued + commands =~= queued);
        } else {
            Self::lemma_after_enqueue_all(
                Self::after_enqueue(queued, open, commands[0]),
                open,
                commands.drop_first(),
            );
            assert(queued.push(commands[0]) + commands.drop_first() =~= queued + commands);
        }
    }

    /// The round trip: commands handed to an open bridge one by one and then
    /// drained change the state exactly as those commands applied in the
    /// order in which they were handed over, after whatever was queued
    /// before them.
    pub proof fn lemma_round_trip(
        state: crate::state::AudioStateView,
        queued: Seq<Command>,
        commands: Seq<Command>,
    )
        ensures
            state.applied_all(Self::after_enqueue_all(queued, true, commands))
                == state.applied_all(queued).applied_all(commands),
            state.applied_all(Self::after_enqueue_all(Seq::empty(), true, commands))
                == state.applied_all(commands),
    {
        Self::lemma_after_enqueue_all(queued, true, commands);
        Self::lemma_after_enqueue_all(Seq::empty(), true, commands);
        state.lemma_applied_all_concat(queued, commands);
        assert(Seq::<Command>::empty() + commands =~= commands);
    }

    /// An empty, open bridge.
    pub fn new() -> (bridge: Bridge)
        ensures
            bridge@ == Seq::<Command>::empty(),
            bridge.accepting(),
    {
        Bridge { queue: VecDeque::new(), open: true }
    }

    /// An empty, open bridge with room for `capacity` commands, so that none
    /// of the first `capacity` commands queued at one time makes the queue
    /// grow.
    pub fn with_capacity(capacity: usize) -> (bridge: Bridge)
        ensures
            bridge@ == Seq::<Command>::empty(),
            bridge.accepting(),
    {
        Bridge { queue: VecDeque::with_capacity(capacity), open: true }
    }

    /// Whether the bridge takes commands.
    pub fn is_open(&self) -> (open: bool)
        ensures
            open == self.accepting(),
    {
        self.open
    }

    /// Opens or closes the bridge. What is queued stays queued.
    pub fn set_open(&mut self, open: bool)
        ensures
            final(self).accepting() == open,
            final(self)@ == old(self)@,
    {
        self.open = open;
    }

    /// How many commands are queued.
    pub fn len(&self) -> (n: usize)
        ensures
            n == self@.len(),
    {
        self.queue.len()
    }

    /// Whether nothing is queued.
    pub fn is_empty(&self) -> (empty: bool)
        ensures
            empty == (self@.len() == 0),
    {
        self.queue.len() == 0
    }

    /// Queues `command` behind everything queued before it, or drops it where
    /// the bridge is closed.
    pub fn enqueue(&mut self, command: Command)
        ensures
            final(self)@ == Self::after_enqueue(old(self)@, old(self).accepting(), command),
            final(self).accepting() == old(self).accepting(),
    {
        if self.open {
            self.queue.push_back(command);
        }
    }

    /// Takes the command that has been queued longest, if there is one.
    pub fn dequeue(&mut self) -> (command: Option<Command>)
        ensures
            old(self)@.len() == 0 ==> command.is_none() && final(self)@ == old(self)@,
            old(self)@.len() > 0 ==> command == Some(old(self)@[0]) && final(self)@ == old(
                self,
            )@.drop_first(),
            final(self).accepting() == old(self).accepting(),
    {
        self.queue.pop_front()
    }

    /// Applies every queued command to `state`, the one queued first first,
    /// and leaves the queue empty.
    pub fn drain_into(&mut self, state: &mut AudioState)
        requires
            old(state).wf(),
        ensures
            final(state)@ == old(state)@.applied_all(old(self)@),
            final(state).wf(),
            final(self)@ == Seq::<Command>::empty(),
            final(self).accepting() == old(self).accepting(),
    {
        loop
            invariant
                state.wf(),
                state@.applied_all(self@) == old(state)@.applied_all(old(self)@),
                self.accepting() == old(self).accepting(),
            decreases self@.len(),
        {
            match self.queue.pop_front() {
                Some(command) => {
                    state.apply(command);
                },
                None => {
                    assert(self@ =~= Seq::<Command>::empty());
                    return;
                },
            }
        }
    }
}

} // verus!
