use snake_engine::clock::{SimulationClock, DEFAULT_TICK_RATE, NANOS_PER_SECOND};
use snake_engine::food::{count_free_cells, nth_free_cell, FoodSpawner, NoFreeCellError};
use snake_engine::game::{consumes, Game, TickOutcome};
use snake_engine::grid::{Cell, Grid};
use snake_engine::heading::Heading;
use snake_engine::snake::Snake;

fn c(x: i64, y: i64) -> Cell {
    Cell::new(x, y)
}

fn snake_at(grid: Grid, cells: &[(i64, i64)], heading: Heading) -> Snake {
    Snake::new(grid, cells.iter().map(|&(x, y)| c(x, y)).collect(), heading)
}

const ALL: [Heading; 4] = [Heading::Left, Heading::Right, Heading::Up, Heading::Down];

#[test]
fn wrap_maps_into_range() {
    let g = Grid::new(24, 10);
    assert_eq!(g.wrap(c(24, 10)), c(0, 0));
    assert_eq!(g.wrap(c(-1, -1)), c(23, 9));
    assert_eq!(g.wrap(c(-25, 21)), c(23, 1));
    assert_eq!(g.wrap(c(i64::MIN, i64::MAX)), c(i64::MIN.rem_euclid(24), i64::MAX.rem_euclid(10)));
    for x in -50..50 {
        for y in -30..30 {
            let w = g.wrap(c(x, y));
            assert!(g.contains_cell(w));
            assert_eq!(g.wrap(w), w);
        }
    }
}

#[test]
fn wrap_keeps_cells_on_the_board() {
    let g = Grid::new(3, 4);
    for x in 0..3 {
        for y in 0..4 {
            assert_eq!(g.wrap(c(x, y)), c(x, y));
        }
    }
}

#[test]
fn reverse_requests_are_ignored() {
    let g = Grid::new(24, 24);
    for &h in ALL.iter() {
        let mut s = snake_at(g, &[(5, 5), (4, 5)], h);
        s.request_heading(h.opposite());
        assert_eq!(s.heading(), h);
        assert_eq!(s.pending_heading(), h);
        s.step();
        assert_eq!(s.heading(), h);
    }
}

#[test]
fn reversal_through_a_perpendicular_request_is_blocked() {
    let g = Grid::new(24, 24);
    let mut s = snake_at(g, &[(5, 5), (4, 5)], Heading::Right);
    s.request_heading(Heading::Up);
    assert_eq!(s.heading(), Heading::Right);
    assert_eq!(s.pending_heading(), Heading::Up);
    s.request_heading(Heading::Left);
    assert_eq!(s.pending_heading(), Heading::Up);
    s.step();
    assert_eq!(s.heading(), Heading::Up);
    assert_eq!(s.head(), c(5, 4));
}

#[test]
fn latest_valid_request_wins() {
    let g = Grid::new(24, 24);
    let mut s = snake_at(g, &[(5, 5), (4, 5)], Heading::Right);
    s.request_heading(Heading::Up);
    s.request_heading(Heading::Down);
    s.step();
    assert_eq!(s.heading(), Heading::Down);
    assert_eq!(s.head(), c(5, 6));
}

#[test]
fn straight_run_moves_head_by_unit_vector() {
    let g = Grid::new(24, 24);
    for (h, dx, dy) in [(Heading::Right, 1, 0), (Heading::Left, -1, 0), (Heading::Up, 0, -1), (Heading::Down, 0, 1)] {
        let mut s = snake_at(g, &[(12, 12), (12, 12)], h);
        for n in 1..=10 {
            s.step();
            assert_eq!(s.head(), c(12 + n * dx, 12 + n * dy));
            assert_eq!(s.len(), 2);
        }
    }
}

#[test]
fn body_follows_predecessors() {
    let g = Grid::new(24, 24);
    let mut s = snake_at(g, &[(5, 5), (4, 5), (3, 5), (3, 6), (3, 7)], Heading::Right);
    s.request_heading(Heading::Down);
    for _ in 0..6 {
        let before = s.positions().clone();
        s.step();
        let after = s.positions();
        assert_eq!(after.len(), before.len());
        for i in 1..after.len() {
            assert_eq!(after[i], before[i - 1]);
        }
    }
}

#[test]
fn grow_appends_previous_tail() {
    let g = Grid::new(24, 24);
    let mut s = snake_at(g, &[(5, 5), (4, 5), (4, 6)], Heading::Right);
    s.grow();
    assert_eq!(s.positions(), &vec![c(5, 5), c(4, 5), c(4, 6), c(4, 6)]);
    s.step();
    assert_eq!(s.positions(), &vec![c(6, 5), c(5, 5), c(4, 5), c(4, 6)]);
}

#[test]
fn scenario_tick_eat_and_grow() {
    let g = Grid::new(24, 24);
    let mut s = snake_at(g, &[(5, 5), (4, 5)], Heading::Right);
    s.step();
    assert_eq!(s.positions(), &vec![c(6, 5), c(5, 5)]);
    assert!(consumes(s.head(), c(6, 5)));
    s.grow();
    s.step();
    assert_eq!(s.positions(), &vec![c(7, 5), c(6, 5), c(5, 5)]);
    assert_eq!(s.len(), 3);
}

#[test]
fn scenario_wrap_at_right_edge() {
    let g = Grid::new(24, 24);
    let mut s = snake_at(g, &[(23, 5), (22, 5)], Heading::Right);
    s.step();
    assert_eq!(s.head(), c(0, 5));
    assert_eq!(s.positions(), &vec![c(0, 5), c(23, 5)]);
}

#[test]
fn wrap_at_every_edge() {
    let g = Grid::new(24, 24);
    let cases = [
        ((0, 5), Heading::Left, (23, 5)),
        ((5, 0), Heading::Up, (5, 23)),
        ((5, 23), Heading::Down, (5, 0)),
    ];
    for (start, h, expected) in cases {
        let mut s = snake_at(g, &[start, start], h);
        s.step();
        assert_eq!(s.head(), c(expected.0, expected.1));
    }
}

#[test]
fn scenario_full_board_has_no_free_cell() {
    let g = Grid::new(2, 1);
    let occupied = vec![c(0, 0), c(1, 0)];
    let mut spawner = FoodSpawner::new(g, 7);
    assert_eq!(spawner.place(&occupied), Err(NoFreeCellError));
    assert_eq!(count_free_cells(g, &occupied), 0);
}

#[test]
fn food_never_lands_on_the_snake() {
    let g = Grid::new(6, 5);
    let occupied = vec![c(0, 0), c(1, 0), c(2, 0), c(2, 1), c(2, 2), c(3, 2), c(4, 2), c(5, 4)];
    let mut spawner = FoodSpawner::new(g, 42);
    for _ in 0..10_000 {
        let f = spawner.place(&occupied).unwrap();
        assert!(g.contains_cell(f));
        assert!(!occupied.contains(&f));
    }
}

#[test]
fn placement_finds_the_last_free_cell() {
    let g = Grid::new(3, 2);
    let occupied = vec![c(0, 0), c(1, 0), c(2, 0), c(0, 1), c(2, 1)];
    let mut spawner = FoodSpawner::new(g, 3);
    for _ in 0..100 {
        assert_eq!(spawner.place(&occupied), Ok(c(1, 1)));
    }
}

#[test]
fn placement_reaches_every_free_cell() {
    let g = Grid::new(3, 3);
    let occupied = vec![c(1, 1)];
    let mut spawner = FoodSpawner::new(g, 11);
    let mut seen = Vec::new();
    for _ in 0..2_000 {
        let f = spawner.place(&occupied).unwrap();
        if !seen.contains(&f) {
            seen.push(f);
        }
    }
    assert_eq!(seen.len(), 8);
}

#[test]
fn free_cells_in_row_major_order() {
    let g = Grid::new(3, 2);
    let occupied = vec![c(1, 0), c(0, 1)];
    assert_eq!(count_free_cells(g, &occupied), 4);
    assert_eq!(nth_free_cell(g, &occupied, 0), Some(c(0, 0)));
    assert_eq!(nth_free_cell(g, &occupied, 1), Some(c(2, 0)));
    assert_eq!(nth_free_cell(g, &occupied, 2), Some(c(1, 1)));
    assert_eq!(nth_free_cell(g, &occupied, 3), Some(c(2, 1)));
    assert_eq!(nth_free_cell(g, &occupied, 4), None);
}

#[test]
fn free_cells_on_empty_board() {
    let g = Grid::new(4, 5);
    assert_eq!(count_free_cells(g, &vec![]), 20);
    assert_eq!(nth_free_cell(g, &vec![], 19), Some(c(3, 4)));
    assert_eq!(nth_free_cell(g, &vec![], 20), None);
}

#[test]
fn clock_fires_every_eighth_of_a_second() {
    let mut clock = SimulationClock::new(DEFAULT_TICK_RATE);
    assert_eq!(clock.tick_rate(), 8);
    let frame = NANOS_PER_SECOND / 60;
    let mut ticks = 0;
    for _ in 0..600 {
        if clock.advance(frame) {
            ticks += 1;
        }
    }
    assert_eq!(ticks, 79);
    let mut exact = SimulationClock::new(8);
    assert!(!exact.advance(124_999_999));
    assert!(exact.advance(1));
    assert!(!exact.advance(0));
}

#[test]
fn clock_fires_once_per_frame_and_carries_debt() {
    let mut clock = SimulationClock::new(8);
    assert!(clock.advance(NANOS_PER_SECOND));
    for _ in 0..7 {
        assert!(clock.advance(0));
    }
    assert!(!clock.advance(0));
}

#[test]
fn clock_saturates_on_huge_frames() {
    let mut clock = SimulationClock::new(1_000);
    assert!(clock.advance(u64::MAX));
    assert!(clock.advance(u64::MAX));
}

#[test]
fn game_starts_with_food_off_the_snake() {
    let game = Game::configure(24, 24, 8, c(5, 5), 1).unwrap();
    assert_eq!(game.positions(), &vec![c(5, 5), c(4, 5)]);
    assert_eq!(game.snake().heading(), Heading::Right);
    let f = game.food().unwrap();
    assert!(f != c(5, 5) && f != c(4, 5));
    assert!(!game.is_over());
}

#[test]
fn game_configure_fails_on_covered_board() {
    assert_eq!(Game::configure(2, 1, 8, c(1, 0), 1).err(), Some(NoFreeCellError));
    assert_eq!(Game::configure(1, 1, 8, c(0, 0), 1).err(), Some(NoFreeCellError));
    assert!(Game::configure(1, 2, 8, c(0, 0), 1).is_ok());
}

#[test]
fn game_tail_wraps_at_left_edge() {
    let game = Game::configure(24, 24, 8, c(0, 3), 1).unwrap();
    assert_eq!(game.positions(), &vec![c(0, 3), c(23, 3)]);
}

#[test]
fn game_advance_ticks_at_the_clock_rate() {
    let mut game = Game::configure(10, 10, 8, c(5, 5), 9).unwrap();
    assert_eq!(game.advance(NANOS_PER_SECOND / 16), Ok(None));
    assert_eq!(game.positions(), &vec![c(5, 5), c(4, 5)]);
    let outcome = game.advance(NANOS_PER_SECOND / 16).unwrap();
    assert!(outcome.is_some());
    assert_eq!(game.positions()[0], c(6, 5));
}

#[test]
fn game_keeps_food_off_the_snake_while_it_grows() {
    let mut game = Game::configure(5, 4, 8, c(2, 2), 5).unwrap();
    let turns = [Heading::Up, Heading::Right, Heading::Down, Heading::Right];
    let mut eaten = 0;
    for step in 0..400 {
        game.request_heading(turns[(step / 3) % 4]);
        let len = game.positions().len();
        match game.tick() {
            Ok(TickOutcome::Moved) => assert_eq!(game.positions().len(), len),
            Ok(TickOutcome::Ate) => {
                eaten += 1;
                assert_eq!(game.positions().len(), len + 1);
            }
            Err(e) => {
                assert_eq!(e, NoFreeCellError);
                assert!(game.is_over());
                break;
            }
        }
        let f = game.food().unwrap();
        assert!(!game.positions().contains(&f));
    }
    assert!(eaten > 0);
}

#[test]
fn game_ends_when_board_fills() {
    let mut game = Game::configure(3, 1, 8, c(1, 0), 4).unwrap();
    assert_eq!(game.food(), Some(c(2, 0)));
    assert_eq!(game.tick(), Ok(TickOutcome::Ate));
    assert_eq!(game.positions(), &vec![c(2, 0), c(1, 0), c(1, 0)]);
    assert_eq!(game.food(), Some(c(0, 0)));
    assert_eq!(game.tick(), Err(NoFreeCellError));
    assert_eq!(game.positions(), &vec![c(0, 0), c(2, 0), c(1, 0), c(1, 0)]);
    assert!(game.is_over());
    assert_eq!(game.food(), None);
    assert_eq!(game.tick(), Err(NoFreeCellError));
    assert_eq!(game.advance(NANOS_PER_SECOND), Err(NoFreeCellError));
    assert_eq!(game.positions().len(), 4);
}
