//! The cell record and its transition in machine integers.

use vstd::prelude::*;
use crate::arith::{fits_i32, floor_div, lemma_average_bounded};
use crate::laws::{lemma_direction_in_table, lemma_empty_iff_unpopulated};
use crate::rules::{
    all_within_reach, can_step, combat, direction_code, grown, incoming, is_preferred,
    lemma_preferred_is_unique, normalized, outranks, preferred, scent_sum, toward, transition,
    within_reach, CellModel, Outcome,
};

verus! {

/// A position on the grid, or the offset between two positions.
#[derive(Clone, Copy, Debug, PartialEq, Eq, Structural)]
pub struct GridVec {
    pub x: i32,
    pub y: i32,
}

impl GridVec {
    /// The position, or the offset, `(x, y)`.
    pub fn new(x: i32, y: i32) -> (v: GridVec)
        ensures
            v.x == x,
            v.y == y,
    {
        GridVec { x, y }
    }
}

/// Who holds a cell.
#[derive(Clone, Copy, Debug, PartialEq, Eq, Structural)]
pub enum Status {
    Empty,
    Zombie,
    Human,
}

impl Status {
    #[inline]
    pub fn is_empty(&self) -> (yes: bool)
        ensures
            yes == (*self == Status::Empty),
    {
        *self == Status::Empty
    }

    #[inline]
    pub fn is_human(&self) -> (yes: bool)
        ensures
            yes == (*self == Status::Human),
    {
        *self == Status::Human
    }

    #[inline]
    pub fn is_zombie(&self) -> (yes: bool)
        ensures
            yes == (*self == Status::Zombie),
    {
        *self == Status::Zombie
    }
}

impl Default for Status {
    fn default() -> (status: Status)
        ensures
            status == Status::Empty,
    {
        Status::Empty
    }
}

/// The state of one cell.
#[derive(Clone, Copy, Debug, PartialEq, Eq, Structural)]
pub struct ZombieState {
    /// Position on the grid; never changes.
    pub xy: GridVec,
    /// Height of the terrain; never changes.
    pub altitude: i32,
    /// Temperature of the terrain; never changes.
    pub temperature: i32,
    pub status: Status,
    pub population: i32,
    /// Where the occupants attack or reinforce on the next tick: 0 to 7
    /// clockwise from north, 8 to stay.
    pub direction: i8,
    pub smell_human: i32,
    pub smell_zombie: i32,
}

impl View for ZombieState {
    type V = CellModel;

    open spec fn view(&self) -> CellModel {
        CellModel {
            x: self.xy.x as int,
            y: self.xy.y as int,
            altitude: self.altitude as int,
            temperature: self.temperature as int,
            status: self.status,
            population: self.population as int,
            direction: self.direction as int,
            smell_human: self.smell_human as int,
            smell_zombie: self.smell_zombie as int,
        }
    }
}

impl Default for ZombieState {
    /// An empty cell at the origin, with every number zero.
    fn default() -> (state: ZombieState)
        ensures
            state == (ZombieState {
                xy: GridVec { x: 0, y: 0 },
                altitude: 0,
                temperature: 0,
                status: Status::Empty,
                population: 0,
                direction: 0,
                smell_human: 0,
                smell_zombie: 0,
            }),
    {
        ZombieState {
            xy: GridVec { x: 0, y: 0 },
            altitude: 0,
            temperature: 0,
            status: Status::Empty,
            population: 0,
            direction: 0,
            smell_human: 0,
            smell_zombie: 0,
        }
    }
}

/// The status that a status code of the raw layout stands for: 1 for
/// zombies, 2 for humans, anything else for an empty cell.
pub open spec fn status_of_code(code: int) -> Status {
    if code == 1 {
        Status::Zombie
    } else if code == 2 {
        Status::Human
    } else {
        Status::Empty
    }
}

/// The cell that a raw list of integers stands for. The layout is: x, y,
/// altitude, temperature, status code, population, direction, human scent,
/// zombie scent. The direction is cut to eight bits.
pub open spec fn decoded(raw: Seq<i32>) -> ZombieState {
    ZombieState {
        xy: GridVec { x: raw[0], y: raw[1] },
        altitude: raw[2],
        temperature: raw[3],
        status: status_of_code(raw[4] as int),
        population: raw[5],
        direction: raw[6] as i8,
        smell_human: raw[7],
        smell_zombie: raw[8],
    }
}

impl ZombieState {
    /// Reads a cell from its raw layout, a list of at least nine integers.
    pub fn from(vec: Vec<i32>) -> (state: ZombieState)
        requires
            vec.len() >= 9,
        ensures
            state == decoded(vec@),
    {
        ZombieState {
            xy: GridVec { x: vec[0], y: vec[1] },
            altitude: vec[2],
            temperature: vec[3],
            status: match vec[4] {
                1 => Status::Zombie,
                2 => Status::Human,
                _ => Status::Empty,
            },
            population: vec[5],
            direction: #[verifier::truncate]
            (vec[6] as i8),
            smell_human: vec[7],
            smell_zombie: vec[8],
        }
    }
}

/// The model loses nothing: records with the same model are the same.
pub proof fn lemma_view_is_faithful(a: ZombieState, b: ZombieState)
    requires
        a@ == b@,
    ensures
        a == b,
{
}

/// The models of a sequence of cells, in the same order.
pub open spec fn views(cells: Seq<ZombieState>) -> Seq<CellModel> {
    cells.map_values(|c: ZombieState| c@)
}

/// A direction code as a mathematical integer.
pub open spec fn code_of(code: Option<i8>) -> Option<int> {
    match code {
        Some(d) => Some(d as int),
        None => None,
    }
}

/// Looks an offset up in the direction table.
pub fn delta_to_direction(delta: GridVec) -> (code: Option<i8>)
    ensures
        code_of(code) == direction_code(delta.x as int, delta.y as int),
{
    offset_code(delta.x as i64, delta.y as i64)
}

/// The direction table over offsets wide enough for the difference of any
/// two positions.
fn offset_code(dx: i64, dy: i64) -> (code: Option<i8>)
    ensures
        code_of(code) == direction_code(dx as int, dy as int),
{
    match (dx, dy) {
        (0, -1) => Some(0),  // north
        (1, -1) => Some(1),  // north-east
        (1, 0) => Some(2),  // east
        (1, 1) => Some(3),  // south-east
        (0, 1) => Some(4),  // south
        (-1, 1) => Some(5),  // south-west
        (-1, 0) => Some(6),  // west
        (-1, -1) => Some(7),  // north-west
        (0, 0) => Some(8),  // no direction
        _ => None,
    }
}

/// Direction code of the step from `from` to `to`, if they are within reach
/// of each other.
fn step_code(from: &ZombieState, to: &ZombieState) -> (code: Option<i8>)
    ensures
        code_of(code) == direction_code(to@.x - from@.x, to@.y - from@.y),
{
    offset_code(to.xy.x as i64 - from.xy.x as i64, to.xy.y as i64 - from.xy.y as i64)
}

/// Whether every neighbour is within reach of `me`.
fn all_reachable(me: &ZombieState, neighbors: &[ZombieState]) -> (yes: bool)
    ensures
        yes == all_within_reach(me@, views(neighbors@)),
{
    let ghost around = views(neighbors@);
    let mut i: usize = 0;
    while i < neighbors.len()
        invariant
            i <= neighbors.len(),
            around == views(neighbors@),
            forall|j: int| 0 <= j < i ==> within_reach(me@, #[trigger] around[j]),
        decreases neighbors.len() - i,
    {
        if step_code(&neighbors[i], me).is_none() {
            assert(!within_reach(me@, around[i as int]));
            return false;
        }
        i += 1;
    }
    true
}

/// Bound on a sum of `count` machine integers.
spec fn sum_bounded(sum: int, count: int) -> bool {
    -(count * 0x8000_0000) <= sum <= count * 0x8000_0000
}

/// Heads of `faction` that the neighbours send into `me`.
fn incoming_heads(me: &ZombieState, neighbors: &[ZombieState], faction: Status) -> (sum: i128)
    ensures
        sum == incoming(views(neighbors@), me@, faction),
        sum_bounded(sum as int, neighbors.len() as int),
{
    let ghost around = views(neighbors@);
    let mut sum: i128 = 0;
    let mut i: usize = 0;
    while i < neighbors.len()
        invariant
            i <= neighbors.len(),
            around == views(neighbors@),
            sum == incoming(around.take(i as int), me@, faction),
            sum_bounded(sum as int, i as int),
        decreases neighbors.len() - i,
    {
        let from = &neighbors[i];
        proof {
            assert(around.take(i + 1).drop_last() == around.take(i as int));
        }
        if from.status == faction {
            match step_code(from, me) {
                Some(code) => {
                    if code == from.direction {
                        sum = sum + from.population as i128;
                    }
                },
                None => {},
            }
        }
        i += 1;
    }
    proof {
        assert(around.take(neighbors.len() as int) == around);
    }
    sum
}

/// Sum of the scent of `faction` over the neighbours.
fn scent_total(neighbors: &[ZombieState], faction: Status) -> (sum: i128)
    ensures
        sum == scent_sum(views(neighbors@), faction),
        sum_bounded(sum as int, neighbors.len() as int),
{
    let ghost around = views(neighbors@);
    let mut sum: i128 = 0;
    let mut i: usize = 0;
    while i < neighbors.len()
        invariant
            i <= neighbors.len(),
            around == views(neighbors@),
            sum == scent_sum(around.take(i as int), faction),
            sum_bounded(sum as int, i as int),
        decreases neighbors.len() - i,
    {
        let from = &neighbors[i];
        proof {
            assert(around.take(i + 1).drop_last() == around.take(i as int));
        }
        match faction {
            Status::Human => {
                sum = sum + from.smell_human as i128;
            },
            Status::Zombie => {
                sum = sum + from.smell_zombie as i128;
            },
            Status::Empty => {},
        }
        i += 1;
    }
    proof {
        assert(around.take(neighbors.len() as int) == around);
    }
    sum
}

/// Bound under which the arithmetic of a fight stays in the wide range.
spec fn fight_sized(heads: int) -> bool {
    -0x1_0000_0000_0000_0000_0000_0000 <= heads <= 0x1_0000_0000_0000_0000_0000_0000
}

/// Resolves the fight over a cell held by `holder`, empties a cell that
/// nobody survived in, and lets surviving humans grow.
fn fight(holder: Status, humans: i128, zombies: i128) -> (left: (Status, i128))
    requires
        fight_sized(humans as int),
        fight_sized(zombies as int),
    ensures
        (Outcome { status: left.0, population: left.1 as int }) == grown(
            normalized(combat(holder, humans as int, zombies as int)),
        ),
        left.0 == Status::Human ==> left.1 > 0,
{
    let mut status: Status = holder;
    let mut population: i128 = 0;
    match holder {
        Status::Empty => {
            if humans > zombies {
                status = Status::Human;
                population = humans - zombies;
            } else if humans < zombies {
                status = Status::Zombie;
                population = zombies - humans;
            } else {
                status = Status::Empty;
            }
        },
        Status::Zombie => {
            if humans > zombies {
                status = Status::Human;
                population = humans - zombies;
            } else if humans < zombies {
                // A third of the humans who came are turned.
                population = zombies - humans + floor_div(humans, 3);
            } else {
                status = Status::Empty;
            }
        },
        Status::Human => {
            // Those who hold the cell stand one against three.
            let besiegers: i128 = floor_div(zombies, 3);
            if humans > besiegers {
                population = humans - besiegers;
            } else if humans < besiegers {
                status = Status::Zombie;
                population = zombies - humans * 3 + floor_div(humans, 3);
            } else {
                status = Status::Empty;
            }
        },
    }
    if population == 0 {
        status = Status::Empty;
    }
    if status == Status::Human {
        population = floor_div(population * 101, 100);
    }
    (status, population)
}

/// Whether `a` attracts `seeker` strictly more than `b` does.
fn attracts_more(a: &ZombieState, b: &ZombieState, seeker: Status) -> (yes: bool)
    ensures
        yes == outranks(a@, b@, seeker),
{
    match seeker {
        Status::Zombie => {
            a.smell_human > b.smell_human || (a.smell_human == b.smell_human && (a.temperature
                < b.temperature || (a.temperature == b.temperature && a.altitude < b.altitude)))
        },
        Status::Human => {
            a.smell_zombie < b.smell_zombie || (a.smell_zombie == b.smell_zombie && (a.temperature
                > b.temperature || (a.temperature == b.temperature && a.altitude > b.altitude)))
        },
        Status::Empty => false,
    }
}

/// Index of the neighbour that `seeker` heads for.
fn pick(neighbors: &[ZombieState], seeker: Status) -> (k: usize)
    requires
        neighbors.len() > 0,
    ensures
        is_preferred(views(neighbors@), k as int, seeker),
        k as int == preferred(views(neighbors@), seeker),
{
    let ghost around = views(neighbors@);
    let mut best: usize = 0;
    let mut i: usize = 1;
    while i < neighbors.len()
        invariant
            1 <= i <= neighbors.len(),
            around == views(neighbors@),
            is_preferred(around.take(i as int), best as int, seeker),
        decreases neighbors.len() - i,
    {
        // The later of two that attract alike wins.
        if !attracts_more(&neighbors[best], &neighbors[i], seeker) {
            best = i;
        }
        i += 1;
    }
    proof {
        assert(around.take(neighbors.len() as int) == around);
        lemma_preferred_is_unique(around, best as int, best as int, seeker);
    }
    best
}

/// Direction code of the step from `me` to `target`; "stay" where there is
/// none.
fn heading_for(me: &ZombieState, target: &ZombieState) -> (code: i8)
    ensures
        code as int == toward(me@, target@),
{
    match step_code(me, target) {
        Some(code) => code,
        None => 8,
    }
}

/// Whether `a` can be held in an `i32`.
fn in_i32(a: i128) -> (yes: bool)
    ensures
        yes == fits_i32(a as int),
{
    -0x8000_0000 <= a && a <= 0x7fff_ffff
}

impl ZombieState {
    /// The state of this cell after one tick, or `None` where the tick is
    /// not defined: without neighbours, with a neighbour out of reach, or
    /// with a result too large for the record.
    pub fn checked_new_cell_state(&self, neighbors: &[ZombieState]) -> (next: Option<ZombieState>)
        ensures
            next is Some <==> can_step(self@, views(neighbors@)),
            next matches Some(state) ==> {
                &&& state@ == transition(self@, views(neighbors@))
                &&& state.population == 0 <==> state.status == Status::Empty
                &&& 0 <= state.direction <= 8
            },
    {
        let ghost around = views(neighbors@);
        proof {
            lemma_empty_iff_unpopulated(self@, around);
            lemma_direction_in_table(self@, around);
        }
        if neighbors.len() == 0 || !all_reachable(self, neighbors) {
            return None;
        }
        // First those whom the neighbours send our way. Our own people count
        // only if they did not move away on the last tick.
        let stayed: bool = self.direction == 8;
        let mut humans: i128 = incoming_heads(self, neighbors, Status::Human);
        let mut zombies: i128 = incoming_heads(self, neighbors, Status::Zombie);
        if stayed && self.status == Status::Human {
            humans = humans + self.population as i128;
        }
        if stayed && self.status == Status::Zombie {
            zombies = zombies + self.population as i128;
        }
        let (status, population) = fight(self.status, humans, zombies);

        // Scent: the neighbours' average, and one for each of our own.
        let count: i128 = neighbors.len() as i128;
        let human_scent: i128 = scent_total(neighbors, Status::Human);
        let zombie_scent: i128 = scent_total(neighbors, Status::Zombie);
        proof {
            lemma_average_bounded(human_scent as int, count as int, 0x8000_0000);
            lemma_average_bounded(zombie_scent as int, count as int, 0x8000_0000);
        }
        let mut smell_human: i128 = floor_div(human_scent, count);
        let mut smell_zombie: i128 = floor_div(zombie_scent, count);
        if self.status == Status::Human {
            smell_human = smell_human + self.population as i128;
        }
        if self.status == Status::Zombie {
            smell_zombie = smell_zombie + self.population as i128;
        }

        // Zombies follow the strongest scent of humans. Humans stay put unless
        // the best cell around is worth an attack or a retreat.
        let mut direction: i8 = 8;
        match status {
            Status::Zombie => {
                let target = &neighbors[pick(neighbors, Status::Zombie)];
                direction = heading_for(self, target);
            },
            Status::Human => {
                let target = &neighbors[pick(neighbors, Status::Human)];
                let defenders: i128 = if target.status == Status::Zombie {
                    target.population as i128
                } else {
                    0
                };
                if floor_div(population, 3) > defenders || (target.status != Status::Zombie
                    && (target.smell_zombie as i128) < smell_zombie) {
                    direction = heading_for(self, target);
                }
            },
            Status::Empty => {},
        }

        if !(in_i32(population) && in_i32(smell_human) && in_i32(smell_zombie)) {
            return None;
        }
        Some(
            ZombieState {
                xy: self.xy,
                altitude: self.altitude,
                temperature: self.temperature,
                status,
                population: population as i32,
                direction,
                smell_human: smell_human as i32,
                smell_zombie: smell_zombie as i32,
            },
        )
    }

    /// The state of this cell after one tick among `neighbors`, which are
    /// taken in the order given.
    pub fn new_cell_state(&self, neighbors: &[ZombieState]) -> (next: ZombieState)
        requires
            can_step(self@, views(neighbors@)),
        ensures
            next@ == transition(self@, views(neighbors@)),
            next.population == 0 <==> next.status == Status::Empty,
            0 <= next.direction <= 8,
    {
        self.checked_new_cell_state(neighbors).unwrap()
    }
}

} // verus!
