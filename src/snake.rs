use vstd::prelude::*;
use crate::grid::{Cell, Grid};
use crate::heading::Heading;

verus! {

/// The cell one unit from `c` in direction `h`, before wrapping.
pub open spec fn displaced(c: Cell, h: Heading) -> Cell {
    Cell { x: (c.x + h.dx()) as i64, y: (c.y + h.dy()) as i64 }
}

/// The body after one tick: the new head is the old head moved one unit in
/// direction `h` and wrapped; every other segment takes its predecessor's cell.
pub open spec fn step_positions(g: Grid, ps: Seq<Cell>, h: Heading) -> Seq<Cell> {
    seq![g.wrap_spec(displaced(ps[0], h))] + ps.subrange(0, ps.len() - 1)
}

/// The body after `n` ticks in direction `h`.
pub open spec fn run_positions(g: Grid, ps: Seq<Cell>, h: Heading, n: nat) -> Seq<Cell>
    decreases n,
{
    if n == 0 {
        ps
    } else {
        step_positions(g, run_positions(g, ps, h, (n - 1) as nat), h)
    }
}

/// The body after growth: the current tail cell is appended once more.
pub open spec fn grown_positions(ps: Seq<Cell>) -> Seq<Cell> {
    ps.push(ps.last())
}

/// The `x` coordinate `k` units from `c` in direction `h`.
pub open spec fn ahead_x(c: Cell, h: Heading, k: int) -> int {
    c.x + k * h.dx()
}

/// The `y` coordinate `k` units from `c` in direction `h`.
pub open spec fn ahead_y(c: Cell, h: Heading, k: int) -> int {
    c.y + k * h.dy()
}

/// With the heading held fixed and no wrap on the way (every cell the head
/// passes is on the board before wrapping), the head after `n` ticks is the
/// initial head plus `n` times the heading's unit vector, and the length is kept.
pub proof fn lemma_straight_run(g: Grid, ps: Seq<Cell>, h: Heading, n: nat)
    requires
        g.wf(),
        ps.len() >= 2,
        forall|k: int| 0 <= k <= n ==> 0 <= #[trigger] ahead_x(ps[0], h, k) < g.width_spec(),
        forall|k: int| 0 <= k <= n ==> 0 <= #[trigger] ahead_y(ps[0], h, k) < g.height_spec(),
    ensures
        run_positions(g, ps, h, n).len() == ps.len(),
        run_positions(g, ps, h, n)[0].x == ahead_x(ps[0], h, n as int),
        run_positions(g, ps, h, n)[0].y == ahead_y(ps[0], h, n as int),
    decreases n,
{
    if n > 0 {
        let m = (n - 1) as nat;
        lemma_straight_run(g, ps, h, m);
        let prev = run_positions(g, ps, h, m);
        let (a, b, dx, dy) = (n as int, m as int, h.dx(), h.dy());
        assert(a * dx == b * dx + dx && a * dy == b * dy + dy) by (nonlinear_arith)
            requires
                a == b + 1,
        ;
        assert(0 <= ahead_x(ps[0], h, n as int) < g.width_spec());
        assert(0 <= ahead_y(ps[0], h, n as int) < g.height_spec());
        g.lemma_wrap_identity(displaced(prev[0], h));
    }
}

/// The chain of occupied cells, head first, with the heading it moves in and
/// the heading that the next tick will apply.
pub struct Snake {
    grid: Grid,
    positions: Vec<Cell>,
    heading: Heading,
    pending_heading: Heading,
}

impl Snake {
    pub closed spec fn grid_spec(&self) -> Grid {
        self.grid
    }

    pub closed spec fn positions_spec(&self) -> Seq<Cell> {
        self.positions@
    }

    pub closed spec fn heading_spec(&self) -> Heading {
        self.heading
    }

    pub closed spec fn pending_spec(&self) -> Heading {
        self.pending_heading
    }

    /// At least two segments, all on the board, and no pending reversal.
    pub open spec fn wf(&self) -> bool {
        &&& self.grid_spec().wf()
        &&& self.positions_spec().len() >= 2
        &&& forall|i: int|
            0 <= i < self.positions_spec().len() ==> #[trigger] self.grid_spec().contains(
                self.positions_spec()[i],
            )
        &&& self.pending_spec() != self.heading_spec().opposite_spec()
    }

    /// A snake on `grid` occupying `seeds`, head first, moving in `heading`.
    pub fn new(grid: Grid, seeds: Vec<Cell>, heading: Heading) -> (r: Snake)
        requires
            grid.wf(),
            seeds@.len() >= 2,
            forall|i: int| 0 <= i < seeds@.len() ==> #[trigger] grid.contains(seeds@[i]),
        ensures
            r.wf(),
            r.grid_spec() == grid,
            r.positions_spec() == seeds@,
            r.heading_spec() == heading,
            r.pending_spec() == heading,
    {
        Snake { grid, positions: seeds, heading, pending_heading: heading }
    }

    pub fn grid(&self) -> (r: Grid)
        ensures
            r == self.grid_spec(),
    {
        self.grid
    }

    pub fn positions(&self) -> (r: &Vec<Cell>)
        ensures
            r@ == self.positions_spec(),
    {
        &self.positions
    }

    pub fn heading(&self) -> (r: Heading)
        ensures
            r == self.heading_spec(),
    {
        self.heading
    }

    pub fn pending_heading(&self) -> (r: Heading)
        ensures
            r == self.pending_spec(),
    {
        self.pending_heading
    }

    pub fn len(&self) -> (r: usize)
        ensures
            r == self.positions_spec().len(),
    {
        self.positions.len()
    }

    pub fn head(&self) -> (r: Cell)
        requires
            self.wf(),
        ensures
            r == self.positions_spec()[0],
    {
        self.positions[0]
    }

    /// Records a change of heading for the next tick, unless it reverses the
    /// current heading, in which case nothing changes.
    pub fn request_heading(&mut self, h: Heading)
        requires
            old(self).wf(),
        ensures
            final(self).wf(),
            final(self).grid_spec() == old(self).grid_spec(),
            final(self).positions_spec() == old(self).positions_spec(),
            final(self).heading_spec() == old(self).heading_spec(),
            h == old(self).heading_spec().opposite_spec() ==> final(self).pending_spec()
                == old(self).pending_spec(),
            h != old(self).heading_spec().opposite_spec() ==> final(self).pending_spec() == h,
    {
        if h != self.heading.opposite() {
            self.pending_heading = h;
        }
    }

    /// One tick: applies the pending heading, shifts every segment into its
    /// predecessor's cell (tail first), then moves the head one unit and wraps it.
    pub fn step(&mut self)
        requires
            old(self).wf(),
        ensures
            final(self).wf(),
            final(self).grid_spec() == old(self).grid_spec(),
            final(self).heading_spec() == old(self).pending_spec(),
            final(self).heading_spec() != old(self).heading_spec().opposite_spec(),
            final(self).pending_spec() == old(self).pending_spec(),
            final(self).positions_spec() == step_positions(
                old(self).grid_spec(),
                old(self).positions_spec(),
                old(self).pending_spec(),
            ),
            final(self).positions_spec().len() == old(self).positions_spec().len(),
            forall|i: int|
                1 <= i < old(self).positions_spec().len() ==> final(self).positions_spec()[i]
                    == old(self).positions_spec()[i - 1],
            final(self).positions_spec()[0] == old(self).grid_spec().wrap_spec(
                displaced(old(self).positions_spec()[0], old(self).pending_spec()),
            ),
    {
        self.heading = self.pending_heading;
        let old_head = self.positions[0];
        let ghost before = self.positions@;
        let n = self.positions.len();
        let mut i: usize = n - 1;
        while i > 0
            invariant
                n == before.len(),
                n >= 2,
                i < n,
                self.grid == old(self).grid,
                self.grid.wf(),
                self.grid.contains(old_head),
                self.heading == old(self).pending_heading,
                self.pending_heading == old(self).pending_heading,
                self.positions@.len() == n,
                forall|j: int| 0 <= j <= i ==> self.positions@[j] == before[j],
                forall|j: int| i < j < n ==> self.positions@[j] == before[j - 1],
            decreases i,
        {
            let prev = self.positions[i - 1];
            self.positions.set(i, prev);
            i = i - 1;
        }
        let raw = match self.heading {
            Heading::Left => Cell { x: old_head.x - 1, y: old_head.y },
            Heading::Right => Cell { x: old_head.x + 1, y: old_head.y },
            Heading::Up => Cell { x: old_head.x, y: old_head.y - 1 },
            Heading::Down => Cell { x: old_head.x, y: old_head.y + 1 },
        };
        let new_head = self.grid.wrap(raw);
        self.positions.set(0, new_head);
        proof {
            let after = step_positions(self.grid, before, self.heading);
            assert(self.positions@ =~= after);
            assert forall|j: int| 0 <= j < self.positions@.len() implies #[trigger] self.grid.contains(
                self.positions@[j],
            ) by {
                if j > 0 {
                    assert(self.grid.contains(before[j - 1]));
                }
            }
        }
    }

    /// Appends one segment on the current tail cell; it starts to move on the
    /// next tick.
    pub fn grow(&mut self)
        requires
            old(self).wf(),
        ensures
            final(self).wf(),
            final(self).grid_spec() == old(self).grid_spec(),
            final(self).heading_spec() == old(self).heading_spec(),
            final(self).pending_spec() == old(self).pending_spec(),
            final(self).positions_spec() == grown_positions(old(self).positions_spec()),
            final(self).positions_spec().len() == old(self).positions_spec().len() + 1,
            final(self).positions_spec().last() == old(self).positions_spec().last(),
    {
        let tail = self.positions[self.positions.len() - 1];
        self.positions.push(tail);
        proof {
            assert forall|j: int| 0 <= j < self.positions@.len() implies #[trigger] self.grid.contains(
                self.positions@[j],
            ) by {
                if j == self.positions@.len() - 1 {
                    assert(self.grid.contains(self.positions@[j - 1]));
                }
            }
        }
    }
}

} // verus!
