//! The state in which a cell starts out.
//!
//! Terrain comes from outside as plain numbers. Who lives on it at the start
//! is left to chance: two rolls of a byte decide the faction and the head
//! count of each cell.

use vstd::prelude::*;
use crate::rules::{sound, CellModel};
use crate::zombie_state::{decoded, Status, ZombieState};

verus! {

/// Status code that a roll gives: a quarter of the cells start with zombies
/// (code 1), a quarter with humans (code 2), the rest empty (code 0).
pub open spec fn rolled_status_code(roll: u8) -> int {
    if roll % 4 == 1 {
        1
    } else if roll % 4 == 2 {
        2
    } else {
        0
    }
}

/// Head count that a roll gives to a cell of the given status code: humans
/// start in large groups, zombies in small ones.
pub open spec fn rolled_population(status_code: int, roll: u8) -> int {
    if status_code == 2 {
        roll % 100 + 50
    } else if status_code == 1 {
        roll % 10 + 1
    } else {
        0
    }
}

/// The raw layout of the cell at `(x, y)` on the given terrain, peopled by
/// the two rolls. Direction and scents start at zero.
pub open spec fn initial_layout(
    x: i32,
    y: i32,
    altitude: i32,
    temperature: i32,
    status_roll: u8,
    population_roll: u8,
) -> Seq<i32> {
    let code = rolled_status_code(status_roll);
    seq![
        x,
        y,
        altitude,
        temperature,
        code as i32,
        rolled_population(code, population_roll) as i32,
        0i32,
        0i32,
        0i32,
    ]
}

/// Builds the raw layout of a starting cell from its terrain and two rolls.
pub fn initial_vector(
    x: i32,
    y: i32,
    altitude: i32,
    temperature: i32,
    status_roll: u8,
    population_roll: u8,
) -> (raw: Vec<i32>)
    ensures
        raw@ == initial_layout(x, y, altitude, temperature, status_roll, population_roll),
{
    let code: i32 = match status_roll % 4 {
        1 => 1,
        2 => 2,
        _ => 0,
    };
    let population: i32 = if code == 2 {
        (population_roll % 100 + 50) as i32
    } else if code == 1 {
        (population_roll % 10 + 1) as i32
    } else {
        0
    };
    let mut raw: Vec<i32> = Vec::new();
    raw.push(x);
    raw.push(y);
    raw.push(altitude);
    raw.push(temperature);
    raw.push(code);
    raw.push(population);
    raw.push(0);
    raw.push(0);
    raw.push(0);
    raw
}

/// The starting cell at `(x, y)` on the given terrain, peopled by the two
/// rolls.
pub fn initial_state(
    x: i32,
    y: i32,
    altitude: i32,
    temperature: i32,
    status_roll: u8,
    population_roll: u8,
) -> (state: ZombieState)
    ensures
        state == decoded(
            initial_layout(x, y, altitude, temperature, status_roll, population_roll),
        ),
{
    ZombieState::from(initial_vector(x, y, altitude, temperature, status_roll, population_roll))
}

/// A starting cell is sound and within the ranges of its faction: humans
/// start 50 to 150 strong, zombies 1 to 10, an empty cell has nobody; it
/// stands where it was put, on the terrain it was given, and has no scent.
pub proof fn lemma_initial_state_in_range(
    x: i32,
    y: i32,
    altitude: i32,
    temperature: i32,
    status_roll: u8,
    population_roll: u8,
)
    ensures
        ({
            let state = decoded(
                initial_layout(x, y, altitude, temperature, status_roll, population_roll),
            );
            &&& state.xy.x == x && state.xy.y == y
            &&& state.altitude == altitude && state.temperature == temperature
            &&& state.status == Status::Human ==> 50 <= state.population <= 150
            &&& state.status == Status::Zombie ==> 1 <= state.population <= 10
            &&& state.status == Status::Empty <==> state.population == 0
            &&& state.direction == 0
            &&& state.smell_human == 0 && state.smell_zombie == 0
        }),
{
}

/// `cell` is a starting cell at `(x, y)` on the given terrain, for some pair
/// of rolls.
pub open spec fn is_initial_at(
    cell: CellModel,
    x: i32,
    y: i32,
    altitude: i32,
    temperature: i32,
) -> bool {
    exists|status_roll: u8, population_roll: u8|
        cell == decoded(
            #[trigger] initial_layout(x, y, altitude, temperature, status_roll, population_roll),
        )@
}

/// Starting cells are sound, whatever the rolls.
pub proof fn lemma_initial_cells_are_sound(
    cell: CellModel,
    x: i32,
    y: i32,
    altitude: i32,
    temperature: i32,
)
    requires
        is_initial_at(cell, x, y, altitude, temperature),
    ensures
        sound(cell),
        cell.x == x,
        cell.y == y,
        cell.altitude == altitude,
        cell.temperature == temperature,
{
    let (status_roll, population_roll) = choose|status_roll: u8, population_roll: u8|
        cell == decoded(
            #[trigger] initial_layout(x, y, altitude, temperature, status_roll, population_roll),
        )@;
    lemma_initial_state_in_range(x, y, altitude, temperature, status_roll, population_roll);
}

/// A byte from the thread's random generator, by `rand::random`. Nothing is
/// claimed of the value.
#[verifier::external_body]
fn random_byte() -> (roll: u8) {
    rand::random::<u8>()
}

/// A starting cell at `(x, y)` on the given terrain, peopled at random: one
/// roll for the faction and, unless the cell stays empty, one for the head
/// count. Whatever the rolls, the cell is one that [`initial_state`] gives.
pub fn random_initial_state(x: i32, y: i32, altitude: i32, temperature: i32) -> (state:
    ZombieState)
    ensures
        is_initial_at(state@, x, y, altitude, temperature),
{
    let status_roll: u8 = random_byte();
    let population_roll: u8 = if status_roll % 4 == 1 || status_roll % 4 == 2 {
        random_byte()
    } else {
        0
    };
    initial_state(x, y, altitude, temperature, status_roll, population_roll)
}

} // verus!
