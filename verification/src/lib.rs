//! The real-time core of a card-based synthesizer: the signal-chain nodes,
//! the beat clock that drives them, the resolution of a chain of nodes into
//! target parameters, and the queue that carries those parameters to the
//! render callback.
//!
//! Every quantity is an integer in a fixed unit, so every contract is exact.
//! Ratios (gains, mixes, multipliers, fractions of a beat) count millionths,
//! times count microseconds, frequencies count microhertz and an oscillator
//! phase counts millionths of a millionth of a cycle.

pub mod bridge;
pub mod chain;
pub mod clock;
pub mod control;
pub mod delay;
pub mod envelope;
pub mod oscillator;
pub mod render;
pub mod sequencer;
pub mod state;
pub mod units;
