use zombie_life::{Grid, GridVec, Status, ZombieState};

fn empty(x: i32, y: i32) -> ZombieState {
    ZombieState {
        xy: GridVec::new(x, y),
        altitude: 0,
        temperature: 0,
        status: Status::Empty,
        population: 0,
        direction: 8,
        smell_human: 0,
        smell_zombie: 0,
    }
}

/// Rows of empty cells, each at its place.
fn empty_rows(width: i32, height: i32) -> Vec<Vec<ZombieState>> {
    (0..height).map(|y| (0..width).map(|x| empty(x, y)).collect()).collect()
}

/// Rows of cells of all kinds, from a fixed sequence of numbers.
fn mixed_rows(width: i32, height: i32) -> Vec<Vec<ZombieState>> {
    let mut seed: u64 = 42;
    let mut draw = move |bound: u64| -> i32 {
        seed = seed.wrapping_mul(6364136223846793005).wrapping_add(1442695040888963407);
        ((seed >> 33) % bound) as i32
    };
    let mut rows = empty_rows(width, height);
    for row in rows.iter_mut() {
        for c in row.iter_mut() {
            c.altitude = draw(100);
            c.temperature = draw(40) - 10;
            c.direction = draw(9) as i8;
            match draw(4) {
                1 => {
                    c.status = Status::Zombie;
                    c.population = 1 + draw(10);
                }
                2 => {
                    c.status = Status::Human;
                    c.population = 50 + draw(100);
                }
                _ => {}
            }
        }
    }
    rows
}

fn positions(cells: &[ZombieState]) -> Vec<(i32, i32)> {
    cells.iter().map(|c| (c.xy.x, c.xy.y)).collect()
}

#[test]
fn a_grid_is_made_of_rows_of_one_length() {
    let grid = Grid::from_rows(empty_rows(4, 3)).unwrap();
    assert_eq!(grid.width(), 4);
    assert_eq!(grid.height(), 3);

    let mut ragged = empty_rows(4, 3);
    ragged[1].pop();
    assert_eq!(Grid::from_rows(ragged), None);

    let mut longer = empty_rows(4, 3);
    longer[2].push(empty(4, 2));
    assert_eq!(Grid::from_rows(longer), None);
}

#[test]
fn a_grid_needs_every_cell_at_its_place() {
    let mut rows = empty_rows(3, 3);
    rows[1][2].xy = GridVec::new(1, 2);
    assert_eq!(Grid::from_rows(rows), None);

    let mut rows = empty_rows(3, 3);
    rows[0][0].xy = GridVec::new(0, 1);
    assert_eq!(Grid::from_rows(rows), None);

    let mut rows = empty_rows(3, 3);
    rows[2][2].xy = GridVec::new(-2, 2);
    assert_eq!(Grid::from_rows(rows), None);
}

#[test]
fn a_grid_may_have_no_cells() {
    let grid = Grid::from_rows(Vec::new()).unwrap();
    assert_eq!(grid.width(), 0);
    assert_eq!(grid.height(), 0);
    assert_eq!(grid.get(0, 0), None);
    assert_eq!(grid.ticked(), Some(grid.clone()));

    let hollow = Grid::from_rows(vec![Vec::new(), Vec::new()]).unwrap();
    assert_eq!(hollow.width(), 0);
    assert_eq!(hollow.height(), 2);
    assert_eq!(hollow.get(0, 0), None);
}

#[test]
fn get_finds_the_cells_on_the_grid_and_no_others() {
    let rows = mixed_rows(4, 3);
    let grid = Grid::from_rows(rows.clone()).unwrap();
    for y in -2..5 {
        for x in -2..6 {
            let on_grid = (0..4).contains(&x) && (0..3).contains(&y);
            let expected = if on_grid { Some(rows[y as usize][x as usize]) } else { None };
            assert_eq!(grid.get(x, y), expected);
        }
    }
    assert_eq!(grid.get(i32::MAX, 0), None);
    assert_eq!(grid.get(0, i32::MIN), None);
}

#[test]
fn neighbors_come_in_a_fixed_order() {
    let grid = Grid::from_rows(mixed_rows(3, 3)).unwrap();
    let around = grid.neighbors(1, 1);
    assert_eq!(
        positions(&around),
        vec![(0, 1), (0, 2), (1, 2), (2, 2), (2, 1), (2, 0), (1, 0), (0, 0)]
    );
    for c in &around {
        assert_eq!(Some(*c), grid.get(c.xy.x, c.xy.y));
    }
}

#[test]
fn the_grid_does_not_wrap() {
    let grid = Grid::from_rows(mixed_rows(4, 3)).unwrap();
    assert_eq!(positions(&grid.neighbors(0, 0)), vec![(0, 1), (1, 1), (1, 0)]);
    assert_eq!(positions(&grid.neighbors(3, 0)), vec![(2, 0), (2, 1), (3, 1)]);
    assert_eq!(positions(&grid.neighbors(0, 2)), vec![(1, 2), (1, 1), (0, 1)]);
    assert_eq!(positions(&grid.neighbors(3, 2)), vec![(2, 2), (3, 1), (2, 1)]);
    assert_eq!(
        positions(&grid.neighbors(1, 0)),
        vec![(0, 0), (0, 1), (1, 1), (2, 1), (2, 0)]
    );
    assert_eq!(
        positions(&grid.neighbors(0, 1)),
        vec![(0, 2), (1, 2), (1, 1), (1, 0), (0, 0)]
    );
}

#[test]
fn corners_have_three_neighbors_borders_five_and_the_inside_eight() {
    let grid = Grid::from_rows(empty_rows(5, 4)).unwrap();
    for y in 0..4 {
        for x in 0..5 {
            let at_side = x == 0 || x == 4;
            let at_end = y == 0 || y == 3;
            let expected = if at_side && at_end {
                3
            } else if at_side || at_end {
                5
            } else {
                8
            };
            assert_eq!(grid.neighbors(x, y).len(), expected);
        }
    }
}

#[test]
fn cells_off_the_grid_may_still_have_neighbors_on_it() {
    let grid = Grid::from_rows(empty_rows(2, 2)).unwrap();
    assert_eq!(positions(&grid.neighbors(-1, -1)), vec![(0, 0)]);
    assert_eq!(positions(&grid.neighbors(2, 0)), vec![(1, 0), (1, 1)]);
    assert_eq!(positions(&grid.neighbors(5, 5)), vec![]);
    assert_eq!(positions(&grid.neighbors(i32::MAX, i32::MAX)), vec![]);
    assert_eq!(positions(&grid.neighbors(i32::MIN, i32::MIN)), vec![]);
}

#[test]
fn a_corner_cell_averages_scent_over_its_three_neighbors() {
    let mut rows = empty_rows(3, 3);
    rows[1][0].smell_human = 9;
    rows[1][1].smell_zombie = 24;
    // Out of reach of the corner: must not count.
    rows[2][2].smell_human = 800;
    rows[0][2].smell_zombie = 800;
    let mut grid = Grid::from_rows(rows).unwrap();
    assert!(grid.step());
    let corner = grid.get(0, 0).unwrap();
    assert_eq!(corner.smell_human, 3);
    assert_eq!(corner.smell_zombie, 8);
}

#[test]
fn a_border_cell_averages_scent_over_its_five_neighbors() {
    let mut rows = empty_rows(3, 3);
    rows[0][0].smell_human = 12;
    rows[1][2].smell_human = 13;
    rows[2][1].smell_human = 800;
    let mut grid = Grid::from_rows(rows).unwrap();
    assert!(grid.step());
    assert_eq!(grid.get(1, 0).unwrap().smell_human, 5);
}

#[test]
fn a_single_cell_cannot_tick() {
    let mut rows = empty_rows(1, 1);
    rows[0][0].status = Status::Human;
    rows[0][0].population = 80;
    let mut grid = Grid::from_rows(rows).unwrap();
    let before = grid.clone();
    assert_eq!(grid.ticked(), None);
    assert!(!grid.step());
    assert_eq!(grid, before);
    assert_eq!(grid.run(3), 0);
    assert_eq!(grid, before);
}

#[test]
fn a_tick_replaces_every_cell_by_its_transition() {
    let before = Grid::from_rows(mixed_rows(6, 5)).unwrap();
    let mut grid = before.clone();
    assert!(grid.step());
    assert_eq!(grid.width(), 6);
    assert_eq!(grid.height(), 5);
    for y in 0..5 {
        for x in 0..6 {
            let me = before.get(x, y).unwrap();
            let expected = me.new_cell_state(&before.neighbors(x, y));
            assert_eq!(grid.get(x, y), Some(expected));
        }
    }
    assert_eq!(before.ticked(), Some(grid));
}

#[test]
fn a_tick_sees_only_the_grid_as_it_was() {
    // Humans walk east along a row of three. Were the cells updated one after
    // the other, the middle would already be theirs when the east is judged.
    let mut rows = empty_rows(3, 1);
    rows[0][0].status = Status::Human;
    rows[0][0].population = 10;
    rows[0][0].direction = 2;
    let mut grid = Grid::from_rows(rows).unwrap();
    assert!(grid.step());
    assert_eq!(grid.get(0, 0).unwrap().status, Status::Empty);
    assert_eq!(grid.get(1, 0).unwrap().status, Status::Human);
    assert_eq!(grid.get(1, 0).unwrap().population, 10);
    assert_eq!(grid.get(2, 0).unwrap().status, Status::Empty);
    assert_eq!(grid.get(2, 0).unwrap().smell_human, 0);
}

#[test]
fn a_tick_that_does_not_fit_leaves_the_grid_as_it_was() {
    let mut rows = empty_rows(3, 1);
    for x in [0, 2] {
        rows[0][x].status = Status::Human;
        rows[0][x].population = i32::MAX;
    }
    rows[0][0].direction = 2;
    rows[0][2].direction = 6;
    let mut grid = Grid::from_rows(rows).unwrap();
    let before = grid.clone();
    assert_eq!(grid.ticked(), None);
    assert!(!grid.step());
    assert_eq!(grid, before);
}

#[test]
fn equal_grids_stay_equal() {
    let mut a = Grid::from_rows(mixed_rows(12, 9)).unwrap();
    let mut b = Grid::from_rows(mixed_rows(12, 9)).unwrap();
    for _ in 0..25 {
        assert_eq!(a.step(), b.step());
        assert_eq!(a, b);
    }
    let mut c = Grid::from_rows(mixed_rows(12, 9)).unwrap();
    assert_eq!(c.run(25), 25);
    assert_eq!(a, c);
}

#[test]
fn run_makes_the_ticks_one_after_the_other() {
    let mut stepped = Grid::from_rows(mixed_rows(7, 7)).unwrap();
    let mut run = stepped.clone();
    assert_eq!(run.run(0), 0);
    assert_eq!(run, stepped);
    for _ in 0..6 {
        assert!(stepped.step());
    }
    assert_eq!(run.run(6), 6);
    assert_eq!(run, stepped);
}

#[test]
fn cells_stay_sound_tick_after_tick() {
    let mut grid = Grid::from_rows(mixed_rows(10, 10)).unwrap();
    for _ in 0..40 {
        assert!(grid.step());
        for y in 0..10 {
            for x in 0..10 {
                let c = grid.get(x, y).unwrap();
                assert_eq!(c.xy, GridVec::new(x, y));
                assert_eq!(c.population == 0, c.status == Status::Empty);
                assert!(c.population >= 0);
                assert!((0..=8).contains(&c.direction));
                assert!(c.smell_human >= 0);
                assert!(c.smell_zombie >= 0);
            }
        }
    }
}

#[test]
fn a_seeded_grid_covers_the_terrain() {
    let terrain: Vec<Vec<(i32, i32)>> =
        (0..6).map(|y| (0..9).map(|x| (10 * y + x, x - y)).collect()).collect();
    let grid = Grid::seeded(&terrain).unwrap();
    assert_eq!(grid.width(), 9);
    assert_eq!(grid.height(), 6);
    for y in 0..6 {
        for x in 0..9 {
            let c = grid.get(x, y).unwrap();
            assert_eq!(c.xy, GridVec::new(x, y));
            assert_eq!(c.altitude, 10 * y + x);
            assert_eq!(c.temperature, x - y);
            assert_eq!(c.direction, 0);
            assert_eq!(c.smell_human, 0);
            assert_eq!(c.smell_zombie, 0);
            match c.status {
                Status::Empty => assert_eq!(c.population, 0),
                Status::Zombie => assert!((1..=10).contains(&c.population)),
                Status::Human => assert!((50..=150).contains(&c.population)),
            }
        }
    }
    let mut grid = grid;
    assert_eq!(grid.run(10), 10);
}

#[test]
fn ragged_terrain_carries_no_grid() {
    let mut terrain: Vec<Vec<(i32, i32)>> = vec![vec![(0, 0); 4]; 3];
    terrain[2].pop();
    assert_eq!(Grid::seeded(&terrain), None);
    assert_eq!(Grid::seeded(&Vec::new()).map(|g| g.height()), Some(0));
}
