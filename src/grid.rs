use vstd::prelude::*;

verus! {

/// A cell coordinate. Wrapped coordinates lie in `[0, width) x [0, height)`;
/// raw coordinates (before wrapping) may lie anywhere.
#[derive(Clone, Copy, Debug, PartialEq, Eq, Structural)]
pub struct Cell {
    pub x: i64,
    pub y: i64,
}

impl Cell {
    pub fn new(x: i64, y: i64) -> (r: Cell)
        ensures
            r.x == x,
            r.y == y,
    {
        Cell { x, y }
    }
}

/// The fixed-size board. Both dimensions are positive.
#[derive(Clone, Copy, Debug, PartialEq, Eq, Structural)]
pub struct Grid {
    width: u32,
    height: u32,
}

/// Euclidean remainder: the representative of `v` in `[0, m)`.
pub open spec fn wrap_coord(v: int, m: int) -> int {
    v % m
}

impl Grid {
    /// Both dimensions are positive 32-bit values.
    pub open spec fn wf(&self) -> bool {
        &&& 0 < self.width_spec() <= u32::MAX
        &&& 0 < self.height_spec() <= u32::MAX
    }

    pub closed spec fn width_spec(&self) -> nat {
        self.width as nat
    }

    pub closed spec fn height_spec(&self) -> nat {
        self.height as nat
    }

    /// Whether `c` lies on the board.
    pub open spec fn contains(&self, c: Cell) -> bool {
        0 <= c.x < self.width_spec() && 0 <= c.y < self.height_spec()
    }

    /// The cell that `c` denotes on the torus.
    pub open spec fn wrap_spec(&self, c: Cell) -> Cell {
        Cell {
            x: wrap_coord(c.x as int, self.width_spec() as int) as i64,
            y: wrap_coord(c.y as int, self.height_spec() as int) as i64,
        }
    }

    /// The board `width` cells wide and `height` cells high.
    pub closed spec fn new_spec(width: u32, height: u32) -> Grid {
        Grid { width, height }
    }

    pub fn new(width: u32, height: u32) -> (r: Grid)
        requires
            width > 0,
            height > 0,
        ensures
            r.wf(),
            r == Grid::new_spec(width, height),
            r.width_spec() == width,
            r.height_spec() == height,
    {
        Grid { width, height }
    }

    pub fn width(&self) -> (r: u32)
        ensures
            r == self.width_spec(),
    {
        self.width
    }

    pub fn height(&self) -> (r: u32)
        ensures
            r == self.height_spec(),
    {
        self.height
    }

    pub fn contains_cell(&self, c: Cell) -> (r: bool)
        ensures
            r == self.contains(c),
    {
        0 <= c.x && c.x < self.width as i64 && 0 <= c.y && c.y < self.height as i64
    }

    /// Maps any coordinate onto the board, per axis `((v % m) + m) % m`.
    pub fn wrap(&self, c: Cell) -> (r: Cell)
        requires
            self.wf(),
        ensures
            r == self.wrap_spec(c),
            self.contains(r),
            self.contains(c) ==> r == c,
    {
        let x = wrap_i64(c.x, self.width);
        let y = wrap_i64(c.y, self.height);
        proof {
            lemma_wrap_in_range(c.x as int, self.width as int);
            lemma_wrap_in_range(c.y as int, self.height as int);
        }
        Cell { x, y }
    }
}

impl Grid {
    /// Wrapping leaves a cell that is already on the board where it is.
    pub proof fn lemma_wrap_identity(&self, c: Cell)
        requires
            self.wf(),
            self.contains(c),
        ensures
            self.wrap_spec(c) == c,
    {
        lemma_wrap_in_range(c.x as int, self.width_spec() as int);
        lemma_wrap_in_range(c.y as int, self.height_spec() as int);
    }
}

proof fn lemma_wrap_in_range(v: int, m: int)
    requires
        m > 0,
    ensures
        0 <= wrap_coord(v, m) < m,
        0 <= v < m ==> wrap_coord(v, m) == v,
{
    if 0 <= v < m {
        vstd::arithmetic::div_mod::lemma_small_mod(v as nat, m as nat);
    }
}

fn wrap_i64(v: i64, m: u32) -> (r: i64)
    requires
        m > 0,
    ensures
        r == wrap_coord(v as int, m as int),
{
    match v.checked_rem_euclid(m as i64) {
        Some(r) => r,
        // only a zero divisor, or MIN by -1, yields None; the divisor is positive
        None => 0,
    }
}

} // verus!
