//! Frame-input button state with press/release transition counting, used by
//! the host loop that drives the simulation.

use vstd::prelude::*;

verus! {

/// A digital button whose state transitions within the current frame are
/// counted, so one frame can tell a fresh press from a held button.
#[derive(Clone, Copy, Debug, PartialEq, Eq, Structural)]
pub struct GameButton {
    pub num_state_transitions: u32,
    pub is_pressed: bool,
}

impl GameButton {
    /// A released button with no recorded transitions.
    pub fn new() -> (r: GameButton)
        ensures
            r.num_state_transitions == 0,
            !r.is_pressed,
    {
        GameButton { num_state_transitions: 0, is_pressed: false }
    }

    /// Drives the button to the given state; a change is counted as one
    /// transition, repeating the current state records nothing.
    pub fn set_state(&mut self, is_pressed: bool)
        requires
            old(self).num_state_transitions < u32::MAX,
        ensures
            final(self).is_pressed == is_pressed,
            old(self).is_pressed != is_pressed ==> final(self).num_state_transitions
                == old(self).num_state_transitions + 1,
            old(self).is_pressed == is_pressed ==> final(self).num_state_transitions
                == old(self).num_state_transitions,
    {
        if self.is_pressed != is_pressed {
            self.num_state_transitions = self.num_state_transitions + 1;
            self.is_pressed = is_pressed;
        }
    }

    /// Forgets the transitions of the ending frame, keeping the state.
    pub fn clear_transitions(&mut self)
        ensures
            final(self).num_state_transitions == 0,
            final(self).is_pressed == old(self).is_pressed,
    {
        self.num_state_transitions = 0;
    }

    /// Flips the button to the opposite state, counting one transition.
    pub fn toggle(&mut self)
        requires
            old(self).num_state_transitions < u32::MAX,
        ensures
            final(self).is_pressed == !old(self).is_pressed,
            final(self).num_state_transitions == old(self).num_state_transitions + 1,
    {
        if self.is_pressed {
            self.set_state(false);
        } else {
            self.set_state(true);
        }
    }
}

} // verus!
