use vstd::prelude::*;
use crate::clock::SimulationClock;
use crate::food::{FoodSpawner, NoFreeCellError};
use crate::grid::{Cell, Grid};
use crate::heading::Heading;
use crate::snake::{displaced, grown_positions, step_positions, Snake};

verus! {

/// What one tick did.
#[derive(Clone, Copy, Debug, PartialEq, Eq, Structural)]
pub enum TickOutcome {
    /// The snake moved and its head missed the food.
    Moved,
    /// The snake moved onto the food, grew, and new food was placed.
    Ate,
}

/// Whether the head has reached the food.
pub fn consumes(head: Cell, food: Cell) -> (r: bool)
    ensures
        r == (head == food),
{
    head == food
}

/// How one tick with food on the board takes `pre` to `post` with result
/// `r`: the snake steps under its pending heading; if the new head is on the
/// food, the snake grows, and new food lands on a free cell unless none is
/// left, in which case the run ends.
pub open spec fn ticked(pre: Game, post: Game, r: Result<TickOutcome, NoFreeCellError>) -> bool {
    let g = pre.grid_spec();
    let stepped = step_positions(g, pre.positions_spec(), pre.snake_spec().pending_spec());
    let f = pre.food_spec()->Some_0;
    &&& post.grid_spec() == g
    &&& post.snake_spec().heading_spec() == pre.snake_spec().pending_spec()
    &&& post.snake_spec().pending_spec() == pre.snake_spec().pending_spec()
    &&& stepped[0] != f ==> r == Ok::<TickOutcome, NoFreeCellError>(TickOutcome::Moved)
        && post.positions_spec() == stepped && post.food_spec() == Some(f)
    &&& stepped[0] == f ==> post.positions_spec() == grown_positions(stepped)
    &&& stepped[0] == f ==> (r is Err <==> forall|c: Cell| #[trigger] g.contains(c)
        ==> grown_positions(stepped).contains(c))
    &&& stepped[0] == f && r is Ok ==> r == Ok::<TickOutcome, NoFreeCellError>(TickOutcome::Ate)
        && post.food_spec() is Some
    &&& stepped[0] == f && r is Err ==> post.food_spec() is None
}

/// The whole simulation: the snake, the food, the spawner that places it and
/// the clock that paces the ticks. Once food can no longer be placed the run
/// has ended and the food is gone. The snake can cross its own body: running
/// into it does not end the run.
pub struct Game {
    snake: Snake,
    food: Option<Cell>,
    spawner: FoodSpawner,
    clock: SimulationClock,
}

impl Game {
    pub closed spec fn snake_spec(&self) -> Snake {
        self.snake
    }

    pub closed spec fn food_spec(&self) -> Option<Cell> {
        self.food
    }

    pub closed spec fn spawner_grid(&self) -> Grid {
        self.spawner.grid_spec()
    }

    pub closed spec fn clock_spec(&self) -> SimulationClock {
        self.clock
    }

    pub open spec fn grid_spec(&self) -> Grid {
        self.snake_spec().grid_spec()
    }

    pub open spec fn positions_spec(&self) -> Seq<Cell> {
        self.snake_spec().positions_spec()
    }

    /// The parts agree on the board, and food, while there is any, lies on
    /// the board away from every segment.
    pub open spec fn wf(&self) -> bool {
        &&& self.snake_spec().wf()
        &&& self.clock_spec().wf()
        &&& self.spawner_grid() == self.grid_spec()
        &&& self.food_spec() matches Some(f) ==> self.grid_spec().contains(f)
            && !self.positions_spec().contains(f)
    }

    /// Starts a run with the given parts and places the first food; fails
    /// when the snake already covers the board.
    pub fn new(snake: Snake, spawner: FoodSpawner, clock: SimulationClock) -> (r: Result<
        Game,
        NoFreeCellError,
    >)
        requires
            snake.wf(),
            clock.wf(),
            spawner.grid_spec() == snake.grid_spec(),
        ensures
            r is Err <==> forall|c: Cell| #[trigger] snake.grid_spec().contains(c)
                ==> snake.positions_spec().contains(c),
            r matches Ok(g) ==> {
                &&& g.wf()
                &&& g.snake_spec() == snake
                &&& g.clock_spec() == clock
                &&& g.food_spec() is Some
            },
    {
        let mut spawner = spawner;
        match spawner.place(snake.positions()) {
            Ok(f) => Ok(Game { snake, food: Some(f), spawner, clock }),
            Err(e) => Err(e),
        }
    }

    /// A run on a `grid_width` by `grid_height` board, ticking `tick_rate`
    /// times a second, with a two-segment snake whose head is on `start`
    /// and whose tail is one cell to its left, heading right. `seed` fixes
    /// where food appears.
    pub fn configure(grid_width: u32, grid_height: u32, tick_rate: u64, start: Cell, seed: u64) -> (r:
        Result<Game, NoFreeCellError>)
        requires
            grid_width > 0,
            grid_height > 0,
            tick_rate > 0,
            0 <= start.x < grid_width,
            0 <= start.y < grid_height,
        ensures
            r is Err <==> forall|c: Cell| #[trigger]
                Grid::new_spec(grid_width, grid_height).contains(c) ==> c == start || c
                    == Grid::new_spec(grid_width, grid_height).wrap_spec(
                    displaced(start, Heading::Left),
                ),
            r matches Ok(g) ==> {
                &&& g.wf()
                &&& g.grid_spec() == Grid::new_spec(grid_width, grid_height)
                &&& g.clock_spec().rate_spec() == tick_rate
                &&& g.clock_spec().debt_spec() == 0
                &&& g.positions_spec() == seq![
                    start,
                    g.grid_spec().wrap_spec(displaced(start, Heading::Left)),
                ]
                &&& g.snake_spec().heading_spec() == Heading::Right
                &&& g.snake_spec().pending_spec() == Heading::Right
                &&& g.food_spec() is Some
            },
    {
        let grid = Grid::new(grid_width, grid_height);
        let tail = grid.wrap(Cell::new(start.x - 1, start.y));
        let snake = Snake::new(grid, vec![start, tail], Heading::Right);
        let spawner = FoodSpawner::new(grid, seed);
        let clock = SimulationClock::new(tick_rate);
        Game::new(snake, spawner, clock)
    }

    pub fn snake(&self) -> (r: &Snake)
        ensures
            *r == self.snake_spec(),
    {
        &self.snake
    }

    pub fn food(&self) -> (r: Option<Cell>)
        ensures
            r == self.food_spec(),
    {
        self.food
    }

    /// The occupied cells, head first.
    pub fn positions(&self) -> (r: &Vec<Cell>)
        ensures
            r@ == self.positions_spec(),
    {
        self.snake.positions()
    }

    /// Whether the run has ended because the board is full.
    pub fn is_over(&self) -> (r: bool)
        ensures
            r == self.food_spec() is None,
    {
        self.food.is_none()
    }

    /// Passes a change of heading to the snake, which ignores a reversal.
    pub fn request_heading(&mut self, h: Heading)
        requires
            old(self).wf(),
        ensures
            final(self).wf(),
            final(self).food_spec() == old(self).food_spec(),
            final(self).clock_spec() == old(self).clock_spec(),
            final(self).grid_spec() == old(self).grid_spec(),
            final(self).positions_spec() == old(self).positions_spec(),
            final(self).snake_spec().heading_spec() == old(self).snake_spec().heading_spec(),
            h == old(self).snake_spec().heading_spec().opposite_spec()
                ==> final(self).snake_spec().pending_spec() == old(self).snake_spec().pending_spec(),
            h != old(self).snake_spec().heading_spec().opposite_spec()
                ==> final(self).snake_spec().pending_spec() == h,
    {
        self.snake.request_heading(h);
    }

    /// One tick: the snake steps; if its new head is on the food, it grows
    /// and food is placed again away from the grown body. Once the board is
    /// full the run has ended and every tick fails without changing anything.
    pub fn tick(&mut self) -> (r: Result<TickOutcome, NoFreeCellError>)
        requires
            old(self).wf(),
        ensures
            final(self).wf(),
            final(self).clock_spec() == old(self).clock_spec(),
            final(self).grid_spec() == old(self).grid_spec(),
            old(self).food_spec() is None ==> r is Err && *final(self) == *old(self),
            old(self).food_spec() is Some ==> ticked(*old(self), *final(self), r),
    {
        let food = match self.food {
            Some(f) => f,
            None => return Err(NoFreeCellError),
        };
        let ghost before = self.positions_spec();
        self.snake.step();
        if !consumes(self.snake.head(), food) {
            proof {
                let after = self.positions_spec();
                assert forall|i: int| 0 <= i < after.len() implies after[i] != food by {
                    if i > 0 {
                        assert(after[i] == before[i - 1]);
                    }
                }
            }
            return Ok(TickOutcome::Moved);
        }
        self.snake.grow();
        match self.spawner.place(self.snake.positions()) {
            Ok(f) => {
                self.food = Some(f);
                Ok(TickOutcome::Ate)
            },
            Err(e) => {
                self.food = None;
                Err(e)
            },
        }
    }

    /// Adds one frame's elapsed time to the clock and runs a tick when the
    /// clock fires one. Returns the tick's outcome, or `None` when no tick
    /// was due. Once the run has ended it fails and changes nothing.
    pub fn advance(&mut self, delta_nanos: u64) -> (r: Result<Option<TickOutcome>, NoFreeCellError>)
        requires
            old(self).wf(),
        ensures
            final(self).wf(),
            final(self).grid_spec() == old(self).grid_spec(),
            old(self).food_spec() is None ==> r is Err && *final(self) == *old(self),
            old(self).food_spec() is Some ==> {
                let (debt, fired) = old(self).clock_spec().advanced(delta_nanos as nat);
                &&& final(self).clock_spec().debt_spec() == debt
                &&& final(self).clock_spec().rate_spec() == old(self).clock_spec().rate_spec()
                &&& !fired ==> r == Ok::<Option<TickOutcome>, NoFreeCellError>(None)
                    && final(self).snake_spec() == old(self).snake_spec() && final(self).food_spec()
                    == old(self).food_spec()
                &&& fired ==> ticked(
                    *old(self),
                    *final(self),
                    match r {
                        Ok(o) => Ok(o.unwrap()),
                        Err(e) => Err(e),
                    },
                ) && (r is Ok ==> r->Ok_0 is Some)
            },
    {
        if self.food.is_none() {
            return Err(NoFreeCellError);
        }
        if !self.clock.advance(delta_nanos) {
            return Ok(None);
        }
        match self.tick() {
            Ok(outcome) => Ok(Some(outcome)),
            Err(e) => Err(e),
        }
    }
}

} // verus!
