//! Host-side input events that drive the emulator shell: quit, pause, single
//! step, and snapshot save/restore requests. The mapping from real keyboard
//! events to these values lives with the windowing layer.
use vstd::prelude::*;

verus! {

/// A single, highest-priority event read from the host's input device.
#[derive(Clone, Copy, Debug, PartialEq, Eq, Structural)]
pub enum InputEvent {
    NoEvent,
    Exit,
    ToggleRun,
    Tick,
    SaveState,
    RestoreState,
}

} // verus!
