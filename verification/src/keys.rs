//! Keyboard matrix handling: snapshots of the switch matrix and the mirroring
//! of coordinates between the two halves.

use vstd::prelude::*;
use crate::debounce::{lemma_edges, Debouncer};
use crate::event::Event;

verus! {

/// Keyboard matrix rows of one half.
pub const ROWS: usize = 4;

/// Keyboard matrix columns of one half.
pub const COLS: usize = 5;

/// Columns of the logical matrix that both halves share.
pub const LOGICAL_COLS: u8 = 10;

/// Keyboard matrix refresh rate, in Hz.
pub const REFRESH_RATE: u16 = 1000;

/// Keyboard matrix debouncing time, in ms.
pub const DEBOUNCE_TIME: u16 = 5;

/// Number of consecutive scans after which a changed switch is believed.
pub const NB_BOUNCE: u16 = REFRESH_RATE * DEBOUNCE_TIME / 1000;

/// Keyboard matrix state: `true` where the switch is closed.
pub type MatrixState = [[bool; COLS]; ROWS];

/// What was read from the pins of the matrix: `None` where a position has no
/// switch, else whether the pin reads low, which is what a closed switch does.
pub type PinLevels = [[Option<bool>; COLS]; ROWS];

/// Whether `(r, c)` is a position of the matrix of one half.
pub open spec fn in_matrix(r: int, c: int) -> bool {
    0 <= r < ROWS && 0 <= c < COLS
}

/// The snapshot that a reading of the pins stands for: a switch is closed
/// where it exists and its pin is low.
pub open spec fn snapshot_of(levels: PinLevels, r: int, c: int) -> bool {
    levels[r][c] == Some(true)
}

/// Whether `state` is the snapshot that a reading of the pins stands for.
pub open spec fn is_snapshot(state: MatrixState, levels: PinLevels) -> bool {
    forall|r: int, c: int| in_matrix(r, c) ==> #[trigger] state[r][c] == snapshot_of(levels, r, c)
}

/// The snapshot that a reading of the pins stands for.
pub open spec fn scanned(levels: PinLevels) -> MatrixState {
    choose|state: MatrixState| is_snapshot(state, levels)
}

/// Create a new keyboard matrix state, with every switch open.
pub fn matrix_state_new() -> (state: MatrixState)
    ensures
        forall|r: int, c: int| in_matrix(r, c) ==> !(#[trigger] state[r][c]),
{
    [[false; COLS]; ROWS]
}

/// Scan the keyboard matrix: positions without a switch are reported open.
pub fn scan_matrix(levels: &PinLevels) -> (state: MatrixState)
    ensures
        is_snapshot(state, *levels),
        state == scanned(*levels),
{
    let mut state = matrix_state_new();
    let mut row: usize = 0;
    while row < ROWS
        invariant
            row <= ROWS,
            forall|r: int, c: int|
                0 <= r < row && 0 <= c < COLS ==> #[trigger] state[r][c] == snapshot_of(
                    *levels,
                    r,
                    c,
                ),
        decreases ROWS - row,
    {
        let mut line = state[row];
        let mut col: usize = 0;
        while col < COLS
            invariant
                row < ROWS,
                col <= COLS,
                forall|c: int|
                    0 <= c < col ==> #[trigger] line[c] == snapshot_of(*levels, row as int, c),
            decreases COLS - col,
        {
            line[col] = match levels[row][col] {
                Some(low) => low,
                None => false,
            };
            col += 1;
        }
        state[row] = line;
        row += 1;
    }
    proof {
        let chosen = scanned(*levels);
        assert(is_snapshot(state, *levels));
        assert(is_snapshot(chosen, *levels));
        assert forall|r: int| 0 <= r < ROWS implies state[r] == chosen[r] by {
            assert forall|c: int| 0 <= c < COLS implies state[r][c] == chosen[r][c] by {
                assert(in_matrix(r, c));
            }
            assert(state[r] =~= chosen[r]);
        }
        assert(state =~= chosen);
    }
    state
}

/// The column that mirrors `col` in the logical matrix.
pub open spec fn mirrored_col(col: u8) -> int {
    LOGICAL_COLS - 1 - col
}

/// What `transform_keypress_coordinates` makes of an event: on the mirrored
/// half the column is counted from the other end, on the other half nothing
/// changes.
pub open spec fn transformed(e: Event, mirrored: bool) -> Event {
    if mirrored {
        e.at(e.row(), mirrored_col(e.col()) as u8)
    } else {
        e
    }
}

/// Transform key events of this half into the coordinates of the logical
/// matrix, by mirroring the column on the mirrored half.
pub fn transform_keypress_coordinates(e: Event, mirrored: bool) -> (t: Event)
    requires
        mirrored ==> e.col() < LOGICAL_COLS,
    ensures
        t == transformed(e, mirrored),
        mirrored ==> t.col() < LOGICAL_COLS,
{
    if mirrored {
        match e {
            Event::Press(i, j) => Event::Press(i, LOGICAL_COLS - 1 - j),
            Event::Release(i, j) => Event::Release(i, LOGICAL_COLS - 1 - j),
        }
    } else {
        e
    }
}

/// Mirroring twice gives the event back.
pub proof fn lemma_transform_involution(e: Event, mirrored: bool)
    requires
        e.col() < LOGICAL_COLS,
    ensures
        transformed(transformed(e, mirrored), mirrored) == e,
        transformed(e, mirrored).col() < LOGICAL_COLS,
{
}

/// The events of `events`, each in the coordinates of the logical matrix.
pub open spec fn transformed_all(events: Seq<Event>, mirrored: bool) -> Seq<Event> {
    Seq::new(events.len(), |i: int| transformed(events[i], mirrored))
}

/// Where the events of a scan go.
#[derive(Clone, Copy, Debug, PartialEq, Eq, Structural)]
pub enum Destination {
    /// To the layout engine of this half, which is the one the host sees.
    Layout,
    /// Over the serial link to the other half.
    Peer,
}

/// What one scan of the matrix produced.
pub struct Scan {
    /// The queue that the events are for.
    pub destination: Destination,
    /// The events, in the coordinates of the logical matrix.
    pub events: Vec<Event>,
}

/// One turn of the scanner: debounce a reading of the pins, bring the events
/// into the coordinates of the logical matrix, and route them to the layout
/// engine when this half is the host side, else to the other half.
pub fn matrix_scanner(
    debouncer: &mut Debouncer,
    levels: &PinLevels,
    is_host: bool,
    mirrored: bool,
) -> (scan: Scan)
    ensures
        is_snapshot(scanned(*levels), *levels),
        old(debouncer).scanned_to(scanned(*levels), *final(debouncer)),
        scan.destination == if is_host {
            Destination::Layout
        } else {
            Destination::Peer
        },
        scan.events@ == transformed_all(old(debouncer).edges(scanned(*levels)), mirrored),
{
    let snapshot = scan_matrix(levels);
    let raw = debouncer.events(&snapshot);
    proof {
        lemma_edges(*old(debouncer), snapshot);
    }
    let mut events: Vec<Event> = Vec::new();
    let mut i: usize = 0;
    while i < raw.len()
        invariant
            i <= raw.len(),
            forall|k: int| 0 <= k < raw.len() ==> (#[trigger] raw[k]).col() < COLS,
            events@ == transformed_all(raw@.take(i as int), mirrored),
        decreases raw.len() - i,
    {
        let t = transform_keypress_coordinates(raw[i], mirrored);
        events.push(t);
        i += 1;
        assert(events@ =~= transformed_all(raw@.take(i as int), mirrored));
    }
    assert(raw@.take(raw.len() as int) =~= raw@);
    let destination = if is_host {
        Destination::Layout
    } else {
        Destination::Peer
    };
    Scan { destination, events }
}

} // verus!
