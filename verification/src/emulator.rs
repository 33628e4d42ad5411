//! The emulator shell state: the machine itself, a pause flag, and a
//! bounded history of full machine snapshots for save and restore.
use vstd::prelude::*;

use crate::chip8::{initial_state, Chip8, State};

verus! {

/// How many snapshots the history keeps before evicting the oldest.
pub const HISTORY_CAPACITY: usize = 16;

/// The emulator: the machine being driven, whether it is paused, and an
/// ordered, bounded sequence of machine snapshots, oldest first.
pub struct Emulator {
    /// Saved machine snapshots, oldest first, at most `HISTORY_CAPACITY`.
    pub history: Vec<Chip8>,
    /// The machine being driven.
    pub state: Chip8,
    /// Whether the host loop is currently paused.
    pub paused: bool,
}

impl Emulator {
    /// Well-formedness: the machine and every stored snapshot are
    /// well-formed and the history respects its capacity.
    pub open spec fn wf(&self) -> bool {
        &&& self.state.wf()
        &&& self.history@.len() <= HISTORY_CAPACITY
        &&& forall|i: int| 0 <= i < self.history@.len() ==> (#[trigger] self.history@[i]).wf()
    }

    /// The stored snapshots as mathematical machine states, oldest first.
    pub open spec fn history_views(&self) -> Seq<State> {
        self.history@.map_values(|c: Chip8| c@)
    }

    /// A paused emulator over a machine at power-on, with no saved
    /// snapshots.
    pub fn init() -> (r: Result<Self, String>)
        ensures
            r matches Ok(e) && e.state@ == initial_state() && e.history_views()
                == Seq::<State>::empty() && e.paused && e.wf(),
    {
        let e = Self { history: Vec::new(), state: Chip8::init(), paused: true };
        proof {
            assert(e.history_views() =~= Seq::<State>::empty());
        }
        Ok(e)
    }

    /// Append a full deep copy of the current machine to the history; once
    /// the capacity is exceeded the oldest snapshot is discarded. Stored
    /// snapshots are never modified.
    pub fn save_state(&mut self)
        requires
            old(self).wf(),
        ensures
            final(self).wf(),
            final(self).state@ == old(self).state@,
            final(self).paused == old(self).paused,
            final(self).history_views() == (if old(self).history_views().len() < HISTORY_CAPACITY {
                old(self).history_views()
            } else {
                old(self).history_views().skip(1)
            }).push(old(self).state@),
    {
        if self.history.len() >= HISTORY_CAPACITY {
            self.history.remove(0);
        }
        let snap = self.state.snapshot();
        self.history.push(snap);
        proof {
            if old(self).history_views().len() < HISTORY_CAPACITY {
                assert(self.history_views() =~= old(self).history_views().push(
                    old(self).state@,
                ));
            } else {
                assert(self.history_views() =~= old(self).history_views().skip(1).push(
                    old(self).state@,
                ));
            }
        }
    }

    /// Replace the current machine with the most recent snapshot; with no
    /// snapshot stored, nothing changes. The snapshot stays in the history.
    pub fn restore_state(&mut self)
        requires
            old(self).wf(),
        ensures
            final(self).wf(),
            final(self).history_views() == old(self).history_views(),
            final(self).paused == old(self).paused,
            old(self).history@.len() == 0 ==> final(self).state@ == old(self).state@,
            old(self).history@.len() > 0 ==> final(self).state@ == old(
                self,
            ).history_views().last(),
    {
        if self.history.len() > 0 {
            let snap = self.history[self.history.len() - 1].snapshot();
            self.state = snap;
        }
    }

    /// Replace the current machine with the stored snapshot at `index`,
    /// oldest first; an out-of-range index changes nothing.
    pub fn restore_state_at(&mut self, index: usize)
        requires
            old(self).wf(),
        ensures
            final(self).wf(),
            final(self).history_views() == old(self).history_views(),
            final(self).paused == old(self).paused,
            index < old(self).history@.len() ==> final(self).state@ == old(self).history_views()[
                index as int
            ],
            index >= old(self).history@.len() ==> final(self).state@ == old(self).state@,
    {
        if index < self.history.len() {
            let snap = self.history[index].snapshot();
            self.state = snap;
        }
    }
}

} // verus!
