//! Edge events of the key matrix.

use vstd::prelude::*;

verus! {

/// A debounced transition at one matrix coordinate `(row, column)`.
#[derive(Clone, Copy, Debug, PartialEq, Eq, Structural)]
pub enum Event {
    /// The switch at `(row, column)` closed.
    Press(u8, u8),
    /// The switch at `(row, column)` opened.
    Release(u8, u8),
}

impl Event {
    /// Row of the event.
    pub open spec fn row(self) -> u8 {
        match self {
            Event::Press(i, _) => i,
            Event::Release(i, _) => i,
        }
    }

    /// Column of the event.
    pub open spec fn col(self) -> u8 {
        match self {
            Event::Press(_, j) => j,
            Event::Release(_, j) => j,
        }
    }

    /// The event of the same kind at another coordinate.
    pub open spec fn at(self, row: u8, col: u8) -> Event {
        match self {
            Event::Press(_, _) => Event::Press(row, col),
            Event::Release(_, _) => Event::Release(row, col),
        }
    }

    /// The coordinate `(row, column)` of the event.
    pub fn coord(self) -> (c: (u8, u8))
        ensures
            c == (self.row(), self.col()),
    {
        match self {
            Event::Press(i, j) => (i, j),
            Event::Release(i, j) => (i, j),
        }
    }
}

} // verus!
