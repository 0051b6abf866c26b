//! Debouncing of the switch matrix.
//!
//! Every cell has a counter of the consecutive scans on which the raw state
//! differed from the last state that was reported. When the counter reaches
//! the threshold the reported state flips and one event leaves; a scan that
//! agrees with the reported state clears the counter.

use vstd::prelude::*;
use crate::event::Event;
use crate::keys::{in_matrix, MatrixState, COLS, ROWS};

verus! {

/// Number of cells of the matrix of one half.
pub const CELLS: usize = ROWS * COLS;

/// The debounce state of one cell.
pub struct CellState {
    /// The state last reported: `true` for a closed switch.
    pub stable: bool,
    /// Consecutive scans on which the raw state differed from `stable`.
    pub count: u16,
}

/// One scan of one cell: the state after it, and whether the reported state
/// flipped, which is when an event is emitted.
pub open spec fn cell_step(s: CellState, threshold: u16, raw: bool) -> (CellState, bool) {
    if raw == s.stable {
        (CellState { stable: s.stable, count: 0 }, false)
    } else if s.count + 1 >= threshold {
        (CellState { stable: raw, count: 0 }, true)
    } else {
        (CellState { stable: s.stable, count: (s.count + 1) as u16 }, false)
    }
}

/// The cell after a run of scans, and the number of events that the run
/// emitted.
pub open spec fn cell_run(s: CellState, threshold: u16, raws: Seq<bool>) -> (CellState, nat)
    decreases raws.len(),
{
    if raws.len() == 0 {
        (s, 0)
    } else {
        let (mid, n) = cell_run(s, threshold, raws.drop_last());
        let (next, flipped) = cell_step(mid, threshold, raws.last());
        (next, if flipped { n + 1 } else { n })
    }
}

/// The event that reports that the switch at `(r, c)` is now `closed`.
pub open spec fn edge(r: int, c: int, closed: bool) -> Event {
    if closed {
        Event::Press(r as u8, c as u8)
    } else {
        Event::Release(r as u8, c as u8)
    }
}

/// The debouncer of one half.
pub struct Debouncer {
    stable: MatrixState,
    counts: [[u16; COLS]; ROWS],
    threshold: u16,
}

impl Debouncer {
    /// The debounce state of the cell at `(r, c)`.
    pub closed spec fn cell(&self, r: int, c: int) -> CellState {
        CellState { stable: self.stable[r][c], count: self.counts[r][c] }
    }

    /// Number of consecutive differing scans after which a change is reported.
    pub closed spec fn threshold(&self) -> u16 {
        self.threshold
    }

    /// The reported state of the whole matrix.
    pub closed spec fn stable(&self) -> MatrixState {
        self.stable
    }

    /// Whether the scan `raw` of the cell at `(r, c)` makes it flip.
    pub open spec fn flips(&self, r: int, c: int, raw: bool) -> bool {
        cell_step(self.cell(r, c), self.threshold(), raw).1
    }

    /// The events that a scan emits for the first `n` cells, rows first.
    pub open spec fn edges_upto(&self, snapshot: MatrixState, n: nat) -> Seq<Event>
        decreases n,
    {
        if n == 0 {
            Seq::empty()
        } else {
            let r = (n - 1) / (COLS as int);
            let c = (n - 1) % (COLS as int);
            let before = self.edges_upto(snapshot, (n - 1) as nat);
            if self.flips(r, c, snapshot[r][c]) {
                before.push(edge(r, c, snapshot[r][c]))
            } else {
                before
            }
        }
    }

    /// The events that a scan emits, rows first, columns in order within a
    /// row.
    pub open spec fn edges(&self, snapshot: MatrixState) -> Seq<Event> {
        self.edges_upto(snapshot, CELLS as nat)
    }

    /// Whether `after` is this debouncer after the scan `snapshot`: every
    /// cell has made its step, and the threshold is the same.
    pub open spec fn scanned_to(&self, snapshot: MatrixState, after: Debouncer) -> bool {
        &&& after.threshold() == self.threshold()
        &&& forall|r: int, c: int|
            in_matrix(r, c) ==> #[trigger] after.cell(r, c) == cell_step(
                self.cell(r, c),
                self.threshold(),
                snapshot[r][c],
            ).0
    }

    /// Create a new debouncer that has reported `stable` and reports a change
    /// after `threshold` consecutive scans.
    pub fn new(stable: MatrixState, threshold: u16) -> (d: Debouncer)
        ensures
            d.threshold() == threshold,
            d.stable() == stable,
            forall|r: int, c: int|
                in_matrix(r, c) ==> #[trigger] d.cell(r, c) == (CellState {
                    stable: stable[r][c],
                    count: 0,
                }),
    {
        Debouncer { stable, counts: [[0u16; COLS]; ROWS], threshold }
    }

    /// Gets the reported state.
    pub fn get(&self) -> (m: &MatrixState)
        ensures
            *m == self.stable(),
            forall|r: int, c: int| in_matrix(r, c) ==> #[trigger] m[r][c] == self.cell(r, c).stable,
    {
        &self.stable
    }

    /// Feeds the raw state of one cell, and returns the event if the reported
    /// state of the cell flipped.
    pub fn update_cell(&mut self, row: usize, col: usize, raw: bool) -> (event: Option<Event>)
        requires
            row < ROWS,
            col < COLS,
        ensures
            final(self).threshold() == old(self).threshold(),
            final(self).cell(row as int, col as int) == cell_step(
                old(self).cell(row as int, col as int),
                old(self).threshold(),
                raw,
            ).0,
            forall|r: int, c: int|
                in_matrix(r, c) && !(r == row && c == col) ==> #[trigger] final(self).cell(r, c)
                    == old(self).cell(r, c),
            event == if old(self).flips(row as int, col as int, raw) {
                Some(edge(row as int, col as int, raw))
            } else {
                None::<Event>
            },
    {
        let mut stable_row = self.stable[row];
        let mut count_row = self.counts[row];
        let count = count_row[col];
        let event;
        if raw == stable_row[col] {
            count_row[col] = 0;
            event = None;
        } else if count == u16::MAX || count + 1 >= self.threshold {
            stable_row[col] = raw;
            count_row[col] = 0;
            event = if raw {
                Some(Event::Press(row as u8, col as u8))
            } else {
                Some(Event::Release(row as u8, col as u8))
            };
        } else {
            count_row[col] = count + 1;
            event = None;
        }
        self.stable[row] = stable_row;
        self.counts[row] = count_row;
        event
    }

    /// Feeds one scan of the matrix and returns the events that it emits.
    pub fn events(&mut self, snapshot: &MatrixState) -> (out: Vec<Event>)
        ensures
            old(self).scanned_to(*snapshot, *final(self)),
            out@ == old(self).edges(*snapshot),
    {
        let mut out: Vec<Event> = Vec::new();
        let mut row: usize = 0;
        while row < ROWS
            invariant
                row <= ROWS,
                self.threshold() == old(self).threshold(),
                forall|r: int, c: int|
                    0 <= r < row && 0 <= c < COLS ==> #[trigger] self.cell(r, c) == cell_step(
                        old(self).cell(r, c),
                        old(self).threshold(),
                        snapshot[r][c],
                    ).0,
                forall|r: int, c: int|
                    row <= r < ROWS && 0 <= c < COLS ==> #[trigger] self.cell(r, c) == old(
                        self,
                    ).cell(r, c),
                out@ == old(self).edges_upto(*snapshot, (row * COLS) as nat),
            decreases ROWS - row,
        {
            let mut col: usize = 0;
            while col < COLS
                invariant
                    row < ROWS,
                    col <= COLS,
                    self.threshold() == old(self).threshold(),
                    forall|r: int, c: int|
                        in_matrix(r, c) && (r < row || (r == row && c < col))
                            ==> #[trigger] self.cell(r, c) == cell_step(
                            old(self).cell(r, c),
                            old(self).threshold(),
                            snapshot[r][c],
                        ).0,
                    forall|r: int, c: int|
                        in_matrix(r, c) && (r > row || (r == row && c >= col))
                            ==> #[trigger] self.cell(r, c) == old(self).cell(r, c),
                    out@ == old(self).edges_upto(*snapshot, (row * COLS + col) as nat),
                decreases COLS - col,
            {
                let ghost before = *self;
                let event = self.update_cell(row, col, snapshot[row][col]);
                proof {
                    let n = (row * COLS + col + 1) as nat;
                    assert((n - 1) / (COLS as int) == row as int);
                    assert((n - 1) % (COLS as int) == col as int);
                    assert(before.cell(row as int, col as int) == old(self).cell(
                        row as int,
                        col as int,
                    ));
                }
                match event {
                    Some(e) => {
                        out.push(e);
                    },
                    None => {},
                }
                col += 1;
            }
            row += 1;
        }
        out
    }
}

/// An event reports a change: a cell flips only to the level that it did not
/// report before, so that its presses and releases take turns.
pub proof fn lemma_flip_is_a_change(s: CellState, threshold: u16, raw: bool)
    ensures
        cell_step(s, threshold, raw).1 ==> raw != s.stable && cell_step(s, threshold, raw).0 == (
            CellState { stable: raw, count: 0 }),
        !cell_step(s, threshold, raw).1 ==> cell_step(s, threshold, raw).0.stable == s.stable,
{
}

/// A run of scans in two parts is the second part run from where the first
/// ended, and emits the events of both.
pub proof fn lemma_cell_run_concat(s: CellState, threshold: u16, a: Seq<bool>, b: Seq<bool>)
    ensures
        cell_run(s, threshold, a + b).0 == cell_run(cell_run(s, threshold, a).0, threshold, b).0,
        cell_run(s, threshold, a + b).1 == cell_run(s, threshold, a).1 + cell_run(
            cell_run(s, threshold, a).0,
            threshold,
            b,
        ).1,
    decreases b.len(),
{
    if b.len() == 0 {
        assert(a + b =~= a);
    } else {
        assert((a + b).drop_last() =~= a + b.drop_last());
        assert((a + b).last() == b.last());
        lemma_cell_run_concat(s, threshold, a, b.drop_last());
    }
}

/// Bounces are filtered: whatever the switch does, as long as the scans so
/// far are fewer than the threshold no event is emitted and the reported state
/// stays.
pub proof fn lemma_noise_is_filtered(s: CellState, threshold: u16, raws: Seq<bool>)
    requires
        s.count + raws.len() < threshold,
    ensures
        cell_run(s, threshold, raws).1 == 0,
        cell_run(s, threshold, raws).0.stable == s.stable,
        cell_run(s, threshold, raws).0.count <= s.count + raws.len(),
    decreases raws.len(),
{
    if raws.len() > 0 {
        lemma_noise_is_filtered(s, threshold, raws.drop_last());
    }
}

/// A switch that rests at the reported level emits nothing.
pub proof fn lemma_rest_is_silent(s: CellState, threshold: u16, raws: Seq<bool>)
    requires
        forall|i: int| 0 <= i < raws.len() ==> raws[i] == s.stable,
    ensures
        cell_run(s, threshold, raws).1 == 0,
        cell_run(s, threshold, raws).0.stable == s.stable,
        raws.len() > 0 ==> cell_run(s, threshold, raws).0.count == 0,
    decreases raws.len(),
{
    if raws.len() > 0 {
        lemma_rest_is_silent(s, threshold, raws.drop_last());
    }
}

/// A switch that stays at the other level counts up to the threshold, flips
/// there with one event, and is silent from then on.
pub proof fn lemma_steady_run(s: CellState, threshold: u16, raws: Seq<bool>)
    requires
        forall|i: int| 0 <= i < raws.len() ==> raws[i] != s.stable,
    ensures
        raws.len() == 0 || s.count + raws.len() < threshold ==> cell_run(s, threshold, raws) == (
            CellState { stable: s.stable, count: (s.count + raws.len()) as u16 },
            0nat,
        ),
        raws.len() > 0 && s.count + raws.len() >= threshold ==> cell_run(s, threshold, raws) == (
            CellState { stable: !s.stable, count: 0 },
            1nat,
        ),
    decreases raws.len(),
{
    if raws.len() > 0 {
        lemma_steady_run(s, threshold, raws.drop_last());
    }
}

/// Once a switch has been steady at the other level for as many scans as the
/// threshold asks, exactly one event has been emitted and the new level is
/// the reported one.
pub proof fn lemma_steady_change_is_reported(s: CellState, threshold: u16, raws: Seq<bool>)
    requires
        raws.len() > 0,
        raws.len() >= threshold,
        forall|i: int| 0 <= i < raws.len() ==> raws[i] != s.stable,
    ensures
        cell_run(s, threshold, raws) == (CellState { stable: !s.stable, count: 0 }, 1nat),
{
    lemma_steady_run(s, threshold, raws);
}

/// Debounce stability: a switch at rest that is noisy for fewer scans than the
/// threshold emits nothing, and once it has then been steady for at least the
/// threshold it has emitted exactly one event if it settled at the other
/// level, and none if it settled where it was.
pub proof fn lemma_debounce_stability(
    s: CellState,
    threshold: u16,
    noise: Seq<bool>,
    steady: Seq<bool>,
    level: bool,
)
    requires
        s.count == 0,
        noise.len() < threshold,
        steady.len() >= threshold,
        forall|i: int| 0 <= i < steady.len() ==> steady[i] == level,
    ensures
        cell_run(s, threshold, noise).1 == 0,
        cell_run(s, threshold, noise + steady) == (
            CellState { stable: level, count: 0 },
            if level != s.stable {
                1nat
            } else {
                0nat
            },
        ),
{
    lemma_noise_is_filtered(s, threshold, noise);
    lemma_cell_run_concat(s, threshold, noise, steady);
    let mid = cell_run(s, threshold, noise).0;
    if level != s.stable {
        lemma_steady_change_is_reported(mid, threshold, steady);
    } else {
        lemma_rest_is_silent(mid, threshold, steady);
    }
}

/// The cell that an event of one half lies in, counted rows first.
pub open spec fn cell_index(e: Event) -> int {
    e.row() * (COLS as int) + e.col()
}

/// What the first `n` cells emit: each event is the edge of a cell among
/// them that flips, each such cell has its event, and no event comes twice.
pub proof fn lemma_edges_upto(d: Debouncer, snapshot: MatrixState, n: nat)
    requires
        n <= CELLS,
    ensures
        d.edges_upto(snapshot, n).len() <= n,
        d.edges_upto(snapshot, n).no_duplicates(),
        forall|i: int|
            #![trigger d.edges_upto(snapshot, n)[i]]
            0 <= i < d.edges_upto(snapshot, n).len() ==> {
                let e = d.edges_upto(snapshot, n)[i];
                &&& in_matrix(e.row() as int, e.col() as int)
                &&& cell_index(e) < n
                &&& e == edge(e.row() as int, e.col() as int, snapshot[e.row() as int][e.col() as int])
                &&& d.flips(e.row() as int, e.col() as int, snapshot[e.row() as int][e.col() as int])
            },
        forall|r: int, c: int|
            in_matrix(r, c) && r * (COLS as int) + c < n && d.flips(r, c, snapshot[r][c])
                ==> d.edges_upto(snapshot, n).contains(#[trigger] edge(r, c, snapshot[r][c])),
    decreases n,
{
    if n > 0 {
        let m = (n - 1) as nat;
        lemma_edges_upto(d, snapshot, m);
        let before = d.edges_upto(snapshot, m);
        let now = d.edges_upto(snapshot, n);
        let r0 = (n - 1) / (COLS as int);
        let c0 = (n - 1) % (COLS as int);
        let e0 = edge(r0, c0, snapshot[r0][c0]);
        assert(cell_index(e0) == n - 1);
        if d.flips(r0, c0, snapshot[r0][c0]) {
            assert(now == before.push(e0));
            assert forall|i: int, j: int| 0 <= i < now.len() && 0 <= j < now.len() && i != j implies now[i]
                != now[j] by {
                if i < before.len() && j < before.len() {
                    assert(before[i] != before[j]);
                } else if i < before.len() {
                    assert(cell_index(before[i]) < n - 1);
                } else {
                    assert(cell_index(before[j]) < n - 1);
                }
            }
            assert forall|r: int, c: int|
                in_matrix(r, c) && r * (COLS as int) + c < n && d.flips(
                    r,
                    c,
                    snapshot[r][c],
                ) implies now.contains(#[trigger] edge(r, c, snapshot[r][c])) by {
                if r * (COLS as int) + c < n - 1 {
                    let i = choose|i: int|
                        0 <= i < before.len() && before[i] == edge(r, c, snapshot[r][c]);
                    assert(now[i] == edge(r, c, snapshot[r][c]));
                } else {
                    assert(r == r0 && c == c0);
                    assert(now[before.len() as int] == e0);
                }
            }
        } else {
            assert(now == before);
            assert forall|r: int, c: int|
                in_matrix(r, c) && r * (COLS as int) + c < n && d.flips(
                    r,
                    c,
                    snapshot[r][c],
                ) implies now.contains(#[trigger] edge(r, c, snapshot[r][c])) by {
                if r * (COLS as int) + c == n - 1 {
                    assert(r == r0 && c == c0);
                }
            }
        }
    }
}

/// What a scan emits: one event for each cell that flips, the press or
/// release that its new state asks for, and nothing else.
pub proof fn lemma_edges(d: Debouncer, snapshot: MatrixState)
    ensures
        d.edges(snapshot).len() <= CELLS,
        d.edges(snapshot).no_duplicates(),
        forall|i: int|
            #![trigger d.edges(snapshot)[i]]
            0 <= i < d.edges(snapshot).len() ==> {
                let e = d.edges(snapshot)[i];
                &&& in_matrix(e.row() as int, e.col() as int)
                &&& e == edge(e.row() as int, e.col() as int, snapshot[e.row() as int][e.col() as int])
                &&& d.flips(e.row() as int, e.col() as int, snapshot[e.row() as int][e.col() as int])
            },
        forall|r: int, c: int|
            in_matrix(r, c) ==> (d.flips(r, c, snapshot[r][c]) <==> d.edges(snapshot).contains(
                #[trigger] edge(r, c, snapshot[r][c]),
            )),
{
    lemma_edges_upto(d, snapshot, CELLS as nat);
    let all = d.edges(snapshot);
    assert forall|r: int, c: int|
        in_matrix(r, c) && all.contains(#[trigger] edge(r, c, snapshot[r][c])) implies d.flips(
        r,
        c,
        snapshot[r][c],
    ) by {
        let i = choose|i: int| 0 <= i < all.len() && all[i] == edge(r, c, snapshot[r][c]);
        let e = all[i];
        assert(e.row() == r && e.col() == c);
    }
}

/// Whether `states` are the states of one debouncer before, between and
/// after the scans `snapshots`.
pub open spec fn is_run(states: Seq<Debouncer>, snapshots: Seq<MatrixState>) -> bool {
    &&& states.len() == snapshots.len() + 1
    &&& forall|i: int|
        0 <= i < snapshots.len() ==> (#[trigger] states[i]).scanned_to(snapshots[i], states[i + 1])
}

/// What the scans `snapshots` saw of the cell at `(r, c)`.
pub open spec fn cell_raws(snapshots: Seq<MatrixState>, r: int, c: int) -> Seq<bool> {
    Seq::new(snapshots.len(), |i: int| snapshots[i][r][c])
}

/// The number of events that the first `n` scans of a run emitted for the
/// cell at `(r, c)`.
pub open spec fn cell_events(
    states: Seq<Debouncer>,
    snapshots: Seq<MatrixState>,
    r: int,
    c: int,
    n: nat,
) -> nat
    decreases n,
{
    if n == 0 {
        0
    } else {
        let before = cell_events(states, snapshots, r, c, (n - 1) as nat);
        if states[n - 1].flips(r, c, snapshots[n - 1][r][c]) {
            before + 1
        } else {
            before
        }
    }
}

/// Over any run of scans, each cell of the debouncer goes the way that
/// `cell_run` describes for what the scans saw of it, and the scans emit as
/// many events for it: the laws of a single cell hold of every cell of the
/// matrix, whatever the other cells do.
pub proof fn lemma_run_of_scans(
    states: Seq<Debouncer>,
    snapshots: Seq<MatrixState>,
    r: int,
    c: int,
    n: nat,
)
    requires
        is_run(states, snapshots),
        in_matrix(r, c),
        n <= snapshots.len(),
    ensures
        states[n as int].threshold() == states[0].threshold(),
        cell_run(states[0].cell(r, c), states[0].threshold(), cell_raws(snapshots, r, c).take(n as int))
            == (states[n as int].cell(r, c), cell_events(states, snapshots, r, c, n)),
    decreases n,
{
    let raws = cell_raws(snapshots, r, c);
    if n > 0 {
        let m = (n - 1) as nat;
        lemma_run_of_scans(states, snapshots, r, c, m);
        assert(raws.take(n as int).drop_last() =~= raws.take(m as int));
        assert(raws.take(n as int).last() == snapshots[m as int][r][c]);
        assert(states[m as int].scanned_to(snapshots[m as int], states[m as int + 1]));
    }
}

} // verus!
