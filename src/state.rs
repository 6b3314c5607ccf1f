//! The event loop's own flags: whether it keeps running, and whether the
//! next pass skips its scheduled draw because a forced draw just happened.

use vstd::prelude::*;

verus! {

/// The mathematical state of the loop flags.
pub struct StateView {
    pub terminal_size: (u16, u16),
    pub running: bool,
    pub skip_frame: bool,
}

pub struct State {
    terminal_size: (u16, u16),
    running: bool,
    skip_frame: bool,
}

impl View for State {
    type V = StateView;

    closed spec fn view(&self) -> StateView {
        StateView {
            terminal_size: self.terminal_size,
            running: self.running,
            skip_frame: self.skip_frame,
        }
    }
}

impl State {
    /// A running loop for a terminal of `terminal_size` (columns, rows) that
    /// draws on its first pass.
    pub fn new(terminal_size: (u16, u16)) -> (r: Self)
        ensures
            r@ == (StateView { terminal_size, running: true, skip_frame: false }),
    {
        State { terminal_size, running: true, skip_frame: false }
    }

    pub fn terminal_size(&self) -> (r: (u16, u16))
        ensures
            r == self@.terminal_size,
    {
        self.terminal_size
    }

    pub fn running(&self) -> (r: bool)
        ensures
            r == self@.running,
    {
        self.running
    }

    /// Ends the loop after the current pass.
    pub fn exit(&mut self)
        ensures
            final(self)@ == (StateView { running: false, ..old(self)@ }),
    {
        self.running = false;
    }

    /// Skips the next scheduled draw.
    pub fn skip_frame(&mut self)
        ensures
            final(self)@ == (StateView { skip_frame: true, ..old(self)@ }),
    {
        self.skip_frame = true;
    }

    /// Whether this pass draws; a skipped pass draws nothing and the one
    /// after it draws again.
    pub fn should_draw(&mut self) -> (r: bool)
        ensures
            r == !old(self)@.skip_frame,
            final(self)@ == (StateView { skip_frame: false, ..old(self)@ }),
    {
        let should_draw = !self.skip_frame;
        self.skip_frame = false;
        should_draw
    }
}

} // verus!
