//! Sprite-sheet frame animation driven by a finite state machine.
//!
//! Every state owns a time-based rule that selects a frame index and decides
//! when control passes to another state. The rules are shared and immutable;
//! the progress of one playback lives in a separate instance value.

/// The registry of states and the driver that switches between them.
pub mod state_machine;
/// The kinds of state that a machine can hold.
pub mod states;
