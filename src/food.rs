use vstd::prelude::*;
use rand::rngs::StdRng;
use rand::{Rng, SeedableRng};
use crate::grid::{Cell, Grid};

verus! {

#[verifier::external_type_specification]
#[verifier::external_body]
pub struct ExStdRng(StdRng);

/// Relies on rand's `SeedableRng::seed_from_u64` to build a generator whose
/// sequence is fixed by the seed.
#[verifier::external_body]
fn seeded_rng(seed: u64) -> StdRng {
    StdRng::seed_from_u64(seed)
}

/// Relies on rand's `Rng::gen_range` over `0..n`: the value lies in that
/// range. It panics on an empty range, hence `n > 0`.
#[verifier::external_body]
fn random_below(rng: &mut StdRng, n: u64) -> (r: u64)
    requires
        n > 0,
    ensures
        r < n,
{
    rng.gen_range(0..n)
}

/// Placement found every cell of the board occupied.
#[derive(Clone, Copy, Debug, PartialEq, Eq, Structural)]
pub struct NoFreeCellError;

/// The cell with row-major index `i`.
pub open spec fn cell_at(g: Grid, i: int) -> Cell {
    Cell { x: (i % (g.width_spec() as int)) as i64, y: (i / (g.width_spec() as int)) as i64 }
}

/// The number of cells on the board.
pub open spec fn cell_count(g: Grid) -> nat {
    g.width_spec() * g.height_spec()
}

/// The unoccupied cells among the first `n` in row-major order, in that order.
pub open spec fn free_prefix(g: Grid, occupied: Seq<Cell>, n: nat) -> Seq<Cell>
    decreases n,
{
    if n == 0 {
        seq![]
    } else {
        let p = free_prefix(g, occupied, (n - 1) as nat);
        let c = cell_at(g, n - 1);
        if occupied.contains(c) {
            p
        } else {
            p.push(c)
        }
    }
}

/// Every unoccupied cell of the board, in row-major order.
pub open spec fn free_cells(g: Grid, occupied: Seq<Cell>) -> Seq<Cell> {
    free_prefix(g, occupied, cell_count(g))
}

proof fn lemma_cell_at_in_grid(g: Grid, i: int)
    requires
        g.wf(),
        0 <= i < cell_count(g),
    ensures
        g.contains(cell_at(g, i)),
{
    let w = g.width_spec() as int;
    let h = g.height_spec() as int;
    let (q, r) = (i / w, i % w);
    vstd::arithmetic::div_mod::lemma_fundamental_div_mod(i, w);
    vstd::arithmetic::div_mod::lemma_mod_bound(i, w);
    vstd::arithmetic::div_mod::lemma_div_pos_is_pos(i, w);
    assert(q < h) by (nonlinear_arith)
        requires
            i == w * q + r,
            0 <= r,
            i < w * h,
            w > 0,
    ;
}

/// Each cell listed in `free_prefix(.., n)` is on the board, unoccupied, and
/// has a row-major index below `n`.
proof fn lemma_free_prefix_sound(g: Grid, occupied: Seq<Cell>, n: nat)
    requires
        g.wf(),
        n <= cell_count(g),
    ensures
        free_prefix(g, occupied, n).len() <= n,
        forall|j: int|
            0 <= j < free_prefix(g, occupied, n).len() ==> {
                let c = #[trigger] free_prefix(g, occupied, n)[j];
                g.contains(c) && !occupied.contains(c)
            },
    decreases n,
{
    if n > 0 {
        lemma_free_prefix_sound(g, occupied, (n - 1) as nat);
        lemma_cell_at_in_grid(g, n - 1);
    }
}

/// Listing more cells only appends: `free_prefix(.., m)` is a prefix of
/// `free_prefix(.., n)` for `m <= n`.
proof fn lemma_free_prefix_extends(g: Grid, occupied: Seq<Cell>, m: nat, n: nat)
    requires
        m <= n,
    ensures
        free_prefix(g, occupied, m).len() <= free_prefix(g, occupied, n).len(),
        forall|j: int|
            0 <= j < free_prefix(g, occupied, m).len() ==> #[trigger] free_prefix(g, occupied, n)[j]
                == free_prefix(g, occupied, m)[j],
    decreases n,
{
    if m < n {
        lemma_free_prefix_extends(g, occupied, m, (n - 1) as nat);
    }
}

/// Every unoccupied cell with row-major index below `n` is listed in
/// `free_prefix(.., n)`.
proof fn lemma_free_prefix_complete(g: Grid, occupied: Seq<Cell>, n: nat, i: int)
    requires
        0 <= i < n,
        !occupied.contains(cell_at(g, i)),
    ensures
        free_prefix(g, occupied, n).contains(cell_at(g, i)),
    decreases n,
{
    let p = free_prefix(g, occupied, (n - 1) as nat);
    if i == n - 1 {
        assert(free_prefix(g, occupied, n).last() == cell_at(g, i));
    } else {
        lemma_free_prefix_complete(g, occupied, (n - 1) as nat, i);
        let j = choose|j: int| 0 <= j < p.len() && p[j] == cell_at(g, i);
        lemma_free_prefix_extends(g, occupied, (n - 1) as nat, n);
        assert(free_prefix(g, occupied, n)[j] == cell_at(g, i));
    }
}

/// A cell on the board is the cell at its row-major index.
proof fn lemma_cell_index(g: Grid, c: Cell)
    requires
        g.wf(),
        g.contains(c),
    ensures
        0 <= c.y * g.width_spec() + c.x < cell_count(g),
        cell_at(g, c.y * g.width_spec() + c.x) == c,
{
    let w = g.width_spec() as int;
    let h = g.height_spec() as int;
    let (x, y) = (c.x as int, c.y as int);
    assert(0 <= y * w + x < w * h) by (nonlinear_arith)
        requires
            0 <= x < w,
            0 <= y < h,
    ;
    vstd::arithmetic::div_mod::lemma_fundamental_div_mod_converse(y * w + x, w, y, x);
}

/// The board has no unoccupied cell exactly when nothing is listed as free.
proof fn lemma_free_cells_empty(g: Grid, occupied: Seq<Cell>)
    requires
        g.wf(),
    ensures
        free_cells(g, occupied).len() == 0 <==> forall|c: Cell| #[trigger] g.contains(c)
            ==> occupied.contains(c),
        forall|j: int|
            0 <= j < free_cells(g, occupied).len() ==> {
                let c = #[trigger] free_cells(g, occupied)[j];
                g.contains(c) && !occupied.contains(c)
            },
{
    lemma_free_prefix_sound(g, occupied, cell_count(g));
    if free_cells(g, occupied).len() == 0 {
        assert forall|c: Cell| #[trigger] g.contains(c) implies occupied.contains(c) by {
            if !occupied.contains(c) {
                lemma_cell_index(g, c);
                lemma_free_prefix_complete(g, occupied, cell_count(g), c.y * g.width_spec() + c.x);
            }
        }
    } else {
        let c = free_cells(g, occupied)[0];
        assert(g.contains(c) && !occupied.contains(c));
    }
}

/// Whether `c` is among `occupied`.
fn is_occupied(occupied: &Vec<Cell>, c: Cell) -> (r: bool)
    ensures
        r == occupied@.contains(c),
{
    let mut i: usize = 0;
    while i < occupied.len()
        invariant
            i <= occupied@.len(),
            forall|j: int| 0 <= j < i ==> occupied@[j] != c,
        decreases occupied@.len() - i,
    {
        if occupied[i] == c {
            return true;
        }
        i = i + 1;
    }
    false
}

/// The cell with row-major index `i`.
fn cell_at_index(grid: Grid, i: u64) -> (r: Cell)
    requires
        grid.wf(),
        i < cell_count(grid),
    ensures
        r == cell_at(grid, i as int),
{
    proof {
        lemma_cell_at_in_grid(grid, i as int);
    }
    let w = grid.width() as u64;
    Cell { x: (i % w) as i64, y: (i / w) as i64 }
}

/// The number of cells on the board.
fn cell_total(grid: Grid) -> (r: u64)
    requires
        grid.wf(),
    ensures
        r == cell_count(grid),
{
    let w = grid.width() as u64;
    let h = grid.height() as u64;
    assert(w * h <= u64::MAX) by (nonlinear_arith)
        requires
            w <= u32::MAX,
            h <= u32::MAX,
    ;
    w * h
}

/// The number of unoccupied cells on the board.
pub fn count_free_cells(grid: Grid, occupied: &Vec<Cell>) -> (r: u64)
    requires
        grid.wf(),
    ensures
        r == free_cells(grid, occupied@).len(),
{
    let total = cell_total(grid);
    let mut count: u64 = 0;
    let mut i: u64 = 0;
    while i < total
        invariant
            grid.wf(),
            total == cell_count(grid),
            i <= total,
            count == free_prefix(grid, occupied@, i as nat).len(),
        decreases total - i,
    {
        proof {
            lemma_free_prefix_sound(grid, occupied@, i as nat);
        }
        let c = cell_at_index(grid, i);
        if !is_occupied(occupied, c) {
            count = count + 1;
        }
        i = i + 1;
    }
    count
}

/// The `k`-th unoccupied cell in row-major order (counting from zero), if
/// there are more than `k` of them.
pub fn nth_free_cell(grid: Grid, occupied: &Vec<Cell>, k: u64) -> (r: Option<Cell>)
    requires
        grid.wf(),
    ensures
        k < free_cells(grid, occupied@).len() ==> r == Some(free_cells(grid, occupied@)[k as int]),
        k >= free_cells(grid, occupied@).len() ==> r is None,
{
    let total = cell_total(grid);
    let mut count: u64 = 0;
    let mut i: u64 = 0;
    while i < total
        invariant
            grid.wf(),
            total == cell_count(grid),
            i <= total,
            count == free_prefix(grid, occupied@, i as nat).len(),
            count <= k,
        decreases total - i,
    {
        let c = cell_at_index(grid, i);
        if !is_occupied(occupied, c) {
            if count == k {
                proof {
                    lemma_free_prefix_extends(grid, occupied@, (i + 1) as nat, total as nat);
                }
                return Some(c);
            }
            count = count + 1;
        }
        i = i + 1;
    }
    None
}

/// Places food on the board, away from the occupied cells.
pub struct FoodSpawner {
    grid: Grid,
    rng: StdRng,
}

impl FoodSpawner {
    pub closed spec fn grid_spec(&self) -> Grid {
        self.grid
    }

    /// A spawner on `grid` whose random choices are fixed by `seed`.
    pub fn new(grid: Grid, seed: u64) -> (r: FoodSpawner)
        requires
            grid.wf(),
        ensures
            r.grid_spec() == grid,
    {
        FoodSpawner { grid, rng: seeded_rng(seed) }
    }

    pub fn grid(&self) -> (r: Grid)
        ensures
            r == self.grid_spec(),
    {
        self.grid
    }

    /// Picks one of the unoccupied cells at random, each with equal chance;
    /// fails exactly when every cell of the board is occupied.
    pub fn place(&mut self, occupied: &Vec<Cell>) -> (r: Result<Cell, NoFreeCellError>)
        requires
            old(self).grid_spec().wf(),
        ensures
            final(self).grid_spec() == old(self).grid_spec(),
            r is Err <==> forall|c: Cell| #[trigger] old(self).grid_spec().contains(c)
                ==> occupied@.contains(c),
            r is Ok ==> free_cells(old(self).grid_spec(), occupied@).contains(r->Ok_0),
            r is Ok ==> old(self).grid_spec().contains(r->Ok_0) && !occupied@.contains(r->Ok_0),
    {
        proof {
            lemma_free_cells_empty(self.grid, occupied@);
        }
        let n = count_free_cells(self.grid, occupied);
        if n == 0 {
            return Err(NoFreeCellError);
        }
        let k = random_below(&mut self.rng, n);
        match nth_free_cell(self.grid, occupied, k) {
            Some(c) => {
                proof {
                    assert(free_cells(self.grid, occupied@)[k as int] == c);
                }
                Ok(c)
            },
            None => Err(NoFreeCellError),
        }
    }
}

} // verus!
