//! The grid of cells and its tick.
//!
//! A grid is a rectangle of cells, each standing at the position it records.
//! The neighbours of a cell are the up to eight cells around it; the grid does
//! not wrap, so cells on the border have fewer. A tick computes every cell's
//! next state from the grid as it was, and only then replaces the grid.

use vstd::prelude::*;
use crate::rules::{can_step, transition, CellModel};
use crate::seed::{is_initial_at, random_initial_state};
use crate::zombie_state::{views, ZombieState};

verus! {

/// The offsets of the eight neighbours, in the order in which a cell is shown
/// them: from the west by way of the south, the east and the north to the
/// north-west, north being the side of smaller `y`. Where several neighbours
/// attract a cell's occupants alike, this order decides.
pub open spec fn neighbor_offset(k: int) -> (int, int) {
    if k == 0 {
        (-1, 0)
    } else if k == 1 {
        (-1, 1)
    } else if k == 2 {
        (0, 1)
    } else if k == 3 {
        (1, 1)
    } else if k == 4 {
        (1, 0)
    } else if k == 5 {
        (1, -1)
    } else if k == 6 {
        (0, -1)
    } else {
        (-1, -1)
    }
}

/// A grid as the rules see it: `rows[y][x]` is the cell at `(x, y)`.
pub struct GridModel {
    pub width: int,
    pub rows: Seq<Seq<CellModel>>,
}

impl GridModel {
    pub open spec fn height(self) -> int {
        self.rows.len() as int
    }

    /// Whether the grid has a cell at `(x, y)`.
    pub open spec fn holds(self, x: int, y: int) -> bool {
        0 <= x < self.width && 0 <= y < self.height()
    }

    /// The cell at `(x, y)`.
    pub open spec fn cell(self, x: int, y: int) -> CellModel {
        self.rows[y][x]
    }

    /// The cells of the grid at the first `k` neighbour offsets from
    /// `(x, y)`, in the order of the offsets.
    pub open spec fn neighbors_among(self, x: int, y: int, k: int) -> Seq<CellModel>
        decreases k,
    {
        if k <= 0 {
            Seq::empty()
        } else {
            let before = self.neighbors_among(x, y, k - 1);
            let (dx, dy) = neighbor_offset(k - 1);
            if self.holds(x + dx, y + dy) {
                before.push(self.cell(x + dx, y + dy))
            } else {
                before
            }
        }
    }

    /// The neighbours of `(x, y)`: the cells of the grid that surround it.
    pub open spec fn neighbors(self, x: int, y: int) -> Seq<CellModel> {
        self.neighbors_among(x, y, 8)
    }

    /// A tick is defined for the grid where it is defined for every cell.
    pub open spec fn can_tick(self) -> bool {
        forall|x: int, y: int|
            self.holds(x, y) ==> can_step(#[trigger] self.cell(x, y), self.neighbors(x, y))
    }

    /// The grid after one tick: every cell makes its transition among the
    /// neighbours that it had before the tick.
    pub open spec fn ticked(self) -> GridModel {
        GridModel {
            width: self.width,
            rows: Seq::new(
                self.height() as nat,
                |y: int|
                    Seq::new(
                        self.width as nat,
                        |x: int| transition(self.cell(x, y), self.neighbors(x, y)),
                    ),
            ),
        }
    }

    /// The grid after `ticks` ticks.
    pub open spec fn after(self, ticks: nat) -> GridModel
        decreases ticks,
    {
        if ticks == 0 {
            self
        } else {
            self.after((ticks - 1) as nat).ticked()
        }
    }

    /// Each of the first `ticks` ticks is defined.
    pub open spec fn can_run(self, ticks: nat) -> bool
        decreases ticks,
    {
        ticks == 0 || (self.can_run((ticks - 1) as nat) && self.after(
            (ticks - 1) as nat,
        ).can_tick())
    }

    /// Every row is `width` cells long, and every cell records the position
    /// at which it stands.
    pub open spec fn well_formed(self) -> bool {
        &&& 0 <= self.width
        &&& forall|y: int| 0 <= y < self.height() ==> (#[trigger] self.rows[y]).len() == self.width
        &&& forall|x: int, y: int|
            self.holds(x, y) ==> (#[trigger] self.cell(x, y)).x == x && self.cell(x, y).y == y
    }
}

/// The models of rows of cells.
pub open spec fn row_models(rows: Seq<Vec<ZombieState>>) -> Seq<Seq<CellModel>> {
    Seq::new(rows.len(), |y: int| views(rows[y]@))
}

/// The grid that rows of cells would make: as wide as the first row.
pub open spec fn arranged(rows: Seq<Vec<ZombieState>>) -> GridModel {
    GridModel {
        width: if rows.len() > 0 {
            rows[0].len() as int
        } else {
            0
        },
        rows: row_models(rows),
    }
}

/// Terrain as it comes from outside: `terrain[y][x]` is the altitude and the
/// temperature at `(x, y)`. It can carry a grid if its rows are of one length
/// and no position on it is beyond what a cell can record.
pub open spec fn can_carry_grid(terrain: Seq<Vec<(i32, i32)>>) -> bool {
    &&& terrain.len() <= i32::MAX
    &&& forall|y: int| 0 <= y < terrain.len() ==> (#[trigger] terrain[y]).len() == terrain[0].len()
    &&& terrain.len() > 0 ==> terrain[0].len() <= i32::MAX
}

/// The rectangle of cells on which the simulation runs.
#[derive(Clone, Debug, PartialEq, Eq)]
pub struct Grid {
    width: usize,
    rows: Vec<Vec<ZombieState>>,
}

impl View for Grid {
    type V = GridModel;

    closed spec fn view(&self) -> GridModel {
        GridModel { width: self.width as int, rows: row_models(self.rows@) }
    }
}

impl Grid {
    /// The invariant of a grid: it is well formed, and no position on it is
    /// beyond what a cell can record.
    pub open spec fn wf(&self) -> bool {
        &&& self@.well_formed()
        &&& self@.width <= i32::MAX
        &&& self@.height() <= i32::MAX
    }

    /// Makes a grid of the given rows, the row of `y = 0` first. The rows must be of one
    /// length, and the cell in column `x` of row `y` must record the position
    /// `(x, y)`; otherwise there is no grid.
    pub fn from_rows(rows: Vec<Vec<ZombieState>>) -> (grid: Option<Grid>)
        ensures
            grid is Some <==> {
                &&& arranged(rows@).well_formed()
                &&& arranged(rows@).width <= i32::MAX
                &&& arranged(rows@).height() <= i32::MAX
            },
            grid matches Some(g) ==> g.wf() && g@ == arranged(rows@),
    {
        let ghost model = arranged(rows@);
        let height: usize = rows.len();
        let width: usize = if height > 0 {
            rows[0].len()
        } else {
            0
        };
        if width > 0x7fff_ffff || height > 0x7fff_ffff {
            return None;
        }
        let mut y: usize = 0;
        while y < height
            invariant
                y <= height,
                height == rows.len(),
                height <= 0x7fff_ffff,
                width <= 0x7fff_ffff,
                model == arranged(rows@),
                model.width == width,
                forall|j: int| 0 <= j < y ==> (#[trigger] model.rows[j]).len() == width,
                forall|i: int, j: int|
                    0 <= i < width && 0 <= j < y ==> (#[trigger] model.cell(i, j)).x == i
                        && model.cell(i, j).y == j,
            decreases height - y,
        {
            let row = &rows[y];
            if row.len() != width {
                return None;
            }
            let mut x: usize = 0;
            while x < width
                invariant
                    x <= width,
                    y < height,
                    height == rows.len(),
                    height <= 0x7fff_ffff,
                    width <= 0x7fff_ffff,
                    row == rows[y as int],
                    row.len() == width,
                    model == arranged(rows@),
                    model.width == width,
                    forall|i: int|
                        0 <= i < x ==> (#[trigger] model.cell(i, y as int)).x == i && model.cell(
                            i,
                            y as int,
                        ).y == y,
                decreases width - x,
            {
                let c = &row[x];
                if c.xy.x != x as i32 || c.xy.y != y as i32 {
                    return None;
                }
                assert(model.cell(x as int, y as int) == c@);
                x += 1;
            }
            y += 1;
        }
        Some(Grid { width, rows })
    }

    /// Lays a grid over the terrain and peoples every cell at random. There
    /// is no grid where the terrain cannot carry one.
    pub fn seeded(terrain: &Vec<Vec<(i32, i32)>>) -> (grid: Option<Grid>)
        ensures
            grid is Some <==> can_carry_grid(terrain@),
            grid matches Some(g) ==> {
                &&& g.wf()
                &&& g@.height() == terrain.len()
                &&& terrain.len() > 0 ==> g@.width == terrain[0].len()
                &&& forall|x: int, y: int|
                    g@.holds(x, y) ==> is_initial_at(
                        #[trigger] g@.cell(x, y),
                        x as i32,
                        y as i32,
                        terrain[y][x].0,
                        terrain[y][x].1,
                    )
            },
    {
        let height: usize = terrain.len();
        let width: usize = if height > 0 {
            terrain[0].len()
        } else {
            0
        };
        if width > 0x7fff_ffff || height > 0x7fff_ffff {
            return None;
        }
        let mut rows: Vec<Vec<ZombieState>> = Vec::new();
        let mut y: usize = 0;
        while y < height
            invariant
                y <= height,
                height == terrain.len(),
                height <= 0x7fff_ffff,
                width <= 0x7fff_ffff,
                height > 0 ==> width == terrain[0].len(),
                rows.len() == y,
                forall|j: int| 0 <= j < y ==> (#[trigger] terrain[j]).len() == width,
                forall|j: int| 0 <= j < y ==> (#[trigger] rows[j]).len() == width,
                forall|i: int, j: int|
                    0 <= i < width && 0 <= j < y ==> is_initial_at(
                        (#[trigger] rows[j][i])@,
                        i as i32,
                        j as i32,
                        terrain[j][i].0,
                        terrain[j][i].1,
                    ),
            decreases height - y,
        {
            let ground = &terrain[y];
            if ground.len() != width {
                return None;
            }
            let mut row: Vec<ZombieState> = Vec::new();
            let mut x: usize = 0;
            while x < width
                invariant
                    x <= width,
                    y < height,
                    height <= 0x7fff_ffff,
                    width <= 0x7fff_ffff,
                    ground == terrain[y as int],
                    ground.len() == width,
                    row.len() == x,
                    forall|i: int|
                        0 <= i < x ==> is_initial_at(
                            (#[trigger] row[i])@,
                            i as i32,
                            y as i32,
                            ground[i].0,
                            ground[i].1,
                        ),
                decreases width - x,
            {
                let (altitude, temperature) = ground[x];
                row.push(random_initial_state(x as i32, y as i32, altitude, temperature));
                x += 1;
            }
            rows.push(row);
            y += 1;
        }
        let grid = Grid { width, rows };
        proof {
            assert forall|i: int, j: int| grid@.holds(i, j) implies (#[trigger] grid@.cell(
                i,
                j,
            )).x == i && grid@.cell(i, j).y == j by {
                assert(is_initial_at(
                    grid@.cell(i, j),
                    i as i32,
                    j as i32,
                    terrain[j][i].0,
                    terrain[j][i].1,
                ));
            }
        }
        Some(grid)
    }

    /// Number of cells in a row.
    pub fn width(&self) -> (w: usize)
        ensures
            w == self@.width,
    {
        self.width
    }

    /// Number of rows.
    pub fn height(&self) -> (h: usize)
        ensures
            h == self@.height(),
    {
        self.rows.len()
    }

    /// The cell at `(x, y)`, if the grid has one there.
    pub fn get(&self, x: i32, y: i32) -> (found: Option<ZombieState>)
        requires
            self.wf(),
        ensures
            found is Some <==> self@.holds(x as int, y as int),
            found matches Some(c) ==> c@ == self@.cell(x as int, y as int),
    {
        if x < 0 || y < 0 {
            return None;
        }
        let column: usize = x as usize;
        let row: usize = y as usize;
        if row >= self.rows.len() || column >= self.width {
            return None;
        }
        Some(self.rows[row][column])
    }

    /// The neighbours of `(x, y)`, in the order in which the cell at `(x, y)`
    /// is shown them.
    pub fn neighbors(&self, x: i32, y: i32) -> (around: Vec<ZombieState>)
        requires
            self.wf(),
        ensures
            views(around@) == self@.neighbors(x as int, y as int),
    {
        let mut around: Vec<ZombieState> = Vec::new();
        let mut k: usize = 0;
        while k < 8
            invariant
                k <= 8,
                self.wf(),
                views(around@) == self@.neighbors_among(x as int, y as int, k as int),
            decreases 8 - k,
        {
            let (dx, dy) = offset_of(k);
            let column: i64 = x as i64 + dx;
            let row: i64 = y as i64 + dy;
            if 0 <= column && column < self.width as i64 && 0 <= row && row < self.rows.len() as i64 {
                assert(self@.rows[row as int].len() == self@.width);
                let c: ZombieState = self.rows[row as usize][column as usize];
                around.push(c);
            }
            k += 1;
        }
        around
    }

    /// The grid one tick later, built beside this one, which stays as it is.
    /// There is none where the tick is not defined for some cell.
    pub fn ticked(&self) -> (buffer: Option<Grid>)
        requires
            self.wf(),
        ensures
            buffer is Some <==> self@.can_tick(),
            buffer matches Some(g) ==> g.wf() && g@ == self@.ticked(),
    {
        let ghost model = self@;
        let height: usize = self.rows.len();
        let width: usize = self.width;
        let mut rows: Vec<Vec<ZombieState>> = Vec::new();
        let mut y: usize = 0;
        while y < height
            invariant
                y <= height,
                self.wf(),
                model == self@,
                height == model.height(),
                width == model.width,
                rows.len() == y,
                forall|j: int| 0 <= j < y ==> (#[trigger] rows[j]).len() == width,
                forall|i: int, j: int|
                    0 <= i < width && 0 <= j < y ==> can_step(
                        #[trigger] model.cell(i, j),
                        model.neighbors(i, j),
                    ),
                forall|i: int, j: int|
                    0 <= i < width && 0 <= j < y ==> (#[trigger] rows[j][i])@ == transition(
                        model.cell(i, j),
                        model.neighbors(i, j),
                    ),
            decreases height - y,
        {
            let mut row: Vec<ZombieState> = Vec::new();
            let mut x: usize = 0;
            while x < width
                invariant
                    x <= width,
                    y < height,
                    self.wf(),
                    model == self@,
                    height == model.height(),
                    width == model.width,
                    row.len() == x,
                    forall|i: int|
                        0 <= i < x ==> can_step(
                            #[trigger] model.cell(i, y as int),
                            model.neighbors(i, y as int),
                        ),
                    forall|i: int|
                        0 <= i < x ==> (#[trigger] row[i])@ == transition(
                            model.cell(i, y as int),
                            model.neighbors(i, y as int),
                        ),
                decreases width - x,
            {
                let me: &ZombieState = &self.rows[y][x];
                assert(me@ == model.cell(x as int, y as int));
                let around: Vec<ZombieState> = self.neighbors(x as i32, y as i32);
                match me.checked_new_cell_state(around.as_slice()) {
                    Some(state) => {
                        row.push(state);
                    },
                    None => {
                        return None;
                    },
                }
                x += 1;
            }
            rows.push(row);
            y += 1;
        }
        let buffer = Grid { width, rows };
        proof {
            // Cell by cell the buffer is the grid after the tick.
            let after = model.ticked();
            assert forall|j: int| 0 <= j < after.rows.len() implies buffer@.rows[j]
                =~= after.rows[j] by {
                assert(buffer@.rows[j].len() == width);
            }
            assert(buffer@.rows =~= after.rows);
        }
        Some(buffer)
    }

    /// Advances the grid by one tick. Either every cell is replaced at once
    /// by its next state, or, where the tick is not defined for some cell,
    /// the grid stays as it was.
    pub fn step(&mut self) -> (advanced: bool)
        requires
            old(self).wf(),
        ensures
            final(self).wf(),
            advanced == old(self)@.can_tick(),
            advanced ==> final(self)@ == old(self)@.ticked(),
            !advanced ==> final(self)@ == old(self)@,
    {
        match self.ticked() {
            Some(buffer) => {
                *self = buffer;
                true
            },
            None => false,
        }
    }

    /// Advances the grid by up to `ticks` ticks and says how many were made.
    /// It stops early only at a grid for which the next tick is not defined.
    pub fn run(&mut self, ticks: usize) -> (done: usize)
        requires
            old(self).wf(),
        ensures
            final(self).wf(),
            done <= ticks,
            old(self)@.can_run(done as nat),
            final(self)@ == old(self)@.after(done as nat),
            done < ticks ==> !final(self)@.can_tick(),
    {
        let mut done: usize = 0;
        while done < ticks
            invariant
                done <= ticks,
                self.wf(),
                old(self)@.can_run(done as nat),
                self@ == old(self)@.after(done as nat),
            decreases ticks - done,
        {
            if !self.step() {
                return done;
            }
            done += 1;
        }
        done
    }
}

/// The `k`-th neighbour offset.
fn offset_of(k: usize) -> (offset: (i64, i64))
    requires
        k < 8,
    ensures
        (offset.0 as int, offset.1 as int) == neighbor_offset(k as int),
{
    match k {
        0 => (-1, 0),
        1 => (-1, 1),
        2 => (0, 1),
        3 => (1, 1),
        4 => (1, 0),
        5 => (1, -1),
        6 => (0, -1),
        _ => (-1, -1),
    }
}

} // verus!
