//! What holds of every tick, proved from the model of the transition.

use vstd::prelude::*;
use vstd::arithmetic::div_mod::lemma_div_pos_is_pos;
use crate::grid::{neighbor_offset, GridModel};
use crate::rules::{
    direction_code, direction_offset, emission, incoming, lemma_preferred_exists, moves_out,
    preferred, scent_sum, sends_to, sound, stay, transition, within_reach, CellModel,
};
use crate::zombie_state::Status;

verus! {

/// The direction table is one to one: an offset has the code `code` exactly
/// when `code` is one of the nine codes and stands for that offset.
pub proof fn lemma_direction_table_is_one_to_one(dx: int, dy: int, code: int)
    ensures
        direction_code(dx, dy) == Some(code) <==> 0 <= code <= 8 && direction_offset(code) == (
            dx,
            dy,
        ),
{
}

/// A cell receives the people of a neighbour exactly when the step that the
/// neighbour has declared leads from the neighbour to the cell.
pub proof fn lemma_sends_to_is_a_step(from: CellModel, me: CellModel)
    ensures
        sends_to(from, me) <==> {
            &&& 0 <= from.direction <= 8
            &&& from.x + direction_offset(from.direction).0 == me.x
            &&& from.y + direction_offset(from.direction).1 == me.y
        },
{
    lemma_direction_table_is_one_to_one(me.x - from.x, me.y - from.y, from.direction);
}

/// A cell is empty exactly when nobody is in it: after a tick, whatever the
/// cell and its neighbours were before, the population is zero if and only
/// if the status is `Empty`.
pub proof fn lemma_empty_iff_unpopulated(me: CellModel, around: Seq<CellModel>)
    ensures
        transition(me, around).population == 0 <==> transition(me, around).status
            == Status::Empty,
        transition(me, around).status == Status::Human ==> transition(me, around).population > 0,
{
}

/// The direction declared after a tick is always one of the nine codes of
/// the direction table.
pub proof fn lemma_direction_in_table(me: CellModel, around: Seq<CellModel>)
    ensures
        0 <= transition(me, around).direction <= 8,
{
}

/// `b` is one of the eight cells that surround `a`.
pub open spec fn adjacent(a: CellModel, b: CellModel) -> bool {
    within_reach(a, b) && !(a.x == b.x && a.y == b.y)
}

/// Whether the occupants that `me` has after a tick have reason to leave:
/// zombies always do, humans when the neighbour they prefer is worth an
/// attack or a retreat, and an empty cell has nobody to leave.
pub open spec fn has_reason_to_move(me: CellModel, around: Seq<CellModel>) -> bool {
    let next = transition(me, around);
    match next.status {
        Status::Empty => false,
        Status::Zombie => true,
        Status::Human => moves_out(
            next.population,
            next.smell_zombie,
            around[preferred(around, Status::Human)],
        ),
    }
}

/// Among true neighbours a cell declares "stay" exactly when its occupants
/// have no reason to move; otherwise it declares the direction of the
/// neighbour that they prefer.
pub proof fn lemma_stays_only_without_reason(me: CellModel, around: Seq<CellModel>)
    requires
        around.len() > 0,
        forall|i: int| 0 <= i < around.len() ==> adjacent(me, #[trigger] around[i]),
    ensures
        transition(me, around).direction == stay() <==> !has_reason_to_move(me, around),
        has_reason_to_move(me, around) ==> Some(transition(me, around).direction)
            == direction_code(
            around[preferred(around, transition(me, around).status)].x - me.x,
            around[preferred(around, transition(me, around).status)].y - me.y,
        ),
{
    // The preferred neighbour is one of `around`, hence a true neighbour,
    // and the step to a true neighbour is never "stay".
    lemma_preferred_exists(around, Status::Human);
    lemma_preferred_exists(around, Status::Zombie);
}

/// Every scent over `around` is at least zero.
pub open spec fn scents_nonnegative(around: Seq<CellModel>) -> bool {
    forall|i: int|
        0 <= i < around.len() ==> (#[trigger] around[i]).smell_human >= 0 && around[i].smell_zombie
            >= 0
}

/// A sum of scents that are at least zero is at least zero.
proof fn lemma_scent_sum_nonnegative(around: Seq<CellModel>, faction: Status)
    requires
        scents_nonnegative(around),
    ensures
        scent_sum(around, faction) >= 0,
    decreases around.len(),
{
    if around.len() > 0 {
        let shorter = around.drop_last();
        assert(scents_nonnegative(shorter)) by {
            assert forall|i: int| 0 <= i < shorter.len() implies (#[trigger] shorter[i]).smell_human
                >= 0 && shorter[i].smell_zombie >= 0 by {
                assert(shorter[i] == around[i]);
            }
        }
        lemma_scent_sum_nonnegative(shorter, faction);
    }
}

/// Diffusion keeps scents at or above zero: where no neighbour has a
/// negative scent and the cell has no negative population, neither scent of
/// the cell is negative after a tick.
pub proof fn lemma_scent_stays_nonnegative(me: CellModel, around: Seq<CellModel>)
    requires
        around.len() > 0,
        scents_nonnegative(around),
        me.population >= 0,
    ensures
        transition(me, around).smell_human >= 0,
        transition(me, around).smell_zombie >= 0,
{
    lemma_scent_sum_nonnegative(around, Status::Human);
    lemma_scent_sum_nonnegative(around, Status::Zombie);
    lemma_div_pos_is_pos(scent_sum(around, Status::Human), around.len() as int);
    lemma_div_pos_is_pos(scent_sum(around, Status::Zombie), around.len() as int);
}

/// No head count over `around` is negative.
pub open spec fn populations_nonnegative(around: Seq<CellModel>) -> bool {
    forall|i: int| 0 <= i < around.len() ==> (#[trigger] around[i]).population >= 0
}

/// Nobody arrives in negative numbers where nobody lives in negative numbers.
proof fn lemma_incoming_nonnegative(around: Seq<CellModel>, me: CellModel, faction: Status)
    requires
        populations_nonnegative(around),
    ensures
        incoming(around, me, faction) >= 0,
    decreases around.len(),
{
    if around.len() > 0 {
        let shorter = around.drop_last();
        assert(populations_nonnegative(shorter)) by {
            assert forall|i: int| 0 <= i < shorter.len() implies (#[trigger] shorter[i]).population
                >= 0 by {
                assert(shorter[i] == around[i]);
            }
        }
        lemma_incoming_nonnegative(shorter, me, faction);
    }
}

/// A fight never leaves a negative head count: where the cell and its
/// neighbours have no negative population before a tick, the cell has none
/// after it.
pub proof fn lemma_population_stays_nonnegative(me: CellModel, around: Seq<CellModel>)
    requires
        me.population >= 0,
        populations_nonnegative(around),
    ensures
        transition(me, around).population >= 0,
{
    lemma_incoming_nonnegative(around, me, Status::Human);
    lemma_incoming_nonnegative(around, me, Status::Zombie);
}

/// Ticks keep cells sound: a sound cell among one or more sound neighbours
/// is sound after a tick.
pub proof fn lemma_sound_cells_stay_sound(me: CellModel, around: Seq<CellModel>)
    requires
        around.len() > 0,
        sound(me),
        forall|i: int| 0 <= i < around.len() ==> sound(#[trigger] around[i]),
    ensures
        sound(transition(me, around)),
{
    lemma_empty_iff_unpopulated(me, around);
    lemma_direction_in_table(me, around);
    lemma_scent_stays_nonnegative(me, around);
    lemma_population_stays_nonnegative(me, around);
}

/// Every cell of the grid is sound.
pub open spec fn all_sound(g: GridModel) -> bool {
    forall|x: int, y: int| g.holds(x, y) ==> sound(#[trigger] g.cell(x, y))
}

proof fn lemma_first_neighbors_are_sound(g: GridModel, x: int, y: int, k: int)
    requires
        all_sound(g),
        0 <= k <= 8,
    ensures
        forall|i: int|
            0 <= i < g.neighbors_among(x, y, k).len() ==> sound(
                #[trigger] g.neighbors_among(x, y, k)[i],
            ),
    decreases k,
{
    if k > 0 {
        lemma_first_neighbors_are_sound(g, x, y, k - 1);
        let before = g.neighbors_among(x, y, k - 1);
        let now = g.neighbors_among(x, y, k);
        let (dx, dy) = neighbor_offset(k - 1);
        // Each is one of the earlier neighbours or the cell at the last offset.
        assert forall|i: int| 0 <= i < now.len() implies sound(#[trigger] now[i]) by {
            if i < before.len() {
                assert(now[i] == before[i]);
            } else {
                assert(now[i] == g.cell(x + dx, y + dy));
            }
        }
    }
}

/// The invariant of the simulation: on a grid whose cells are all sound,
/// every cell is sound after every tick that is defined.
pub proof fn lemma_sound_grids_stay_sound(g: GridModel, ticks: nat)
    requires
        0 <= g.width,
        all_sound(g),
        g.can_run(ticks),
    ensures
        all_sound(g.after(ticks)),
    decreases ticks,
{
    if ticks > 0 {
        let before = g.after((ticks - 1) as nat);
        lemma_sound_grids_stay_sound(g, (ticks - 1) as nat);
        lemma_ticks_keep_shape(g, (ticks - 1) as nat);
        assert forall|x: int, y: int| before.ticked().holds(x, y) implies sound(
            #[trigger] before.ticked().cell(x, y),
        ) by {
            lemma_first_neighbors_are_sound(before, x, y, 8);
            lemma_sound_cells_stay_sound(before.cell(x, y), before.neighbors(x, y));
        }
    }
}

/// The neighbours that a grid shows a cell are true neighbours: each stands
/// one step away along at least one axis and at most one step along each.
pub proof fn lemma_neighbors_are_adjacent(g: GridModel, x: int, y: int)
    requires
        g.well_formed(),
        g.holds(x, y),
    ensures
        forall|i: int|
            0 <= i < g.neighbors(x, y).len() ==> adjacent(
                g.cell(x, y),
                #[trigger] g.neighbors(x, y)[i],
            ),
{
    lemma_first_neighbors_are_adjacent(g, x, y, 8);
}

proof fn lemma_first_neighbors_are_adjacent(g: GridModel, x: int, y: int, k: int)
    requires
        g.well_formed(),
        g.holds(x, y),
        0 <= k <= 8,
    ensures
        forall|i: int|
            0 <= i < g.neighbors_among(x, y, k).len() ==> adjacent(
                g.cell(x, y),
                #[trigger] g.neighbors_among(x, y, k)[i],
            ),
    decreases k,
{
    if k > 0 {
        lemma_first_neighbors_are_adjacent(g, x, y, k - 1);
        let before = g.neighbors_among(x, y, k - 1);
        let now = g.neighbors_among(x, y, k);
        let (dx, dy) = neighbor_offset(k - 1);
        let me = g.cell(x, y);
        // Each is one of the earlier neighbours or the cell at the last
        // offset, which stands where the offset leads.
        assert forall|i: int| 0 <= i < now.len() implies adjacent(me, #[trigger] now[i]) by {
            if i < before.len() {
                assert(now[i] == before[i]);
            } else {
                assert(now[i] == g.cell(x + dx, y + dy));
            }
        }
    }
}

/// A grid without wraparound: on a grid at least two cells wide and high, a
/// cell in a corner has three neighbours, another cell on the border five,
/// and a cell inside eight.
pub proof fn lemma_neighbor_count(g: GridModel, x: int, y: int)
    requires
        g.width >= 2,
        g.height() >= 2,
        g.holds(x, y),
    ensures
        ({
            let at_side = x == 0 || x == g.width - 1;
            let at_end = y == 0 || y == g.height() - 1;
            g.neighbors(x, y).len() == if at_side && at_end {
                3int
            } else if at_side || at_end {
                5int
            } else {
                8int
            }
        }),
{
    reveal_with_fuel(GridModel::neighbors_among, 9);
}

/// A cell in a corner takes its scent from the three neighbours it has: the
/// average is over three, not over eight.
pub proof fn lemma_corner_averages_over_three(g: GridModel, x: int, y: int)
    requires
        g.width >= 2,
        g.height() >= 2,
        x == 0 || x == g.width - 1,
        y == 0 || y == g.height() - 1,
    ensures
        g.neighbors(x, y).len() == 3,
        g.ticked().cell(x, y).smell_human == scent_sum(g.neighbors(x, y), Status::Human) / 3
            + emission(g.cell(x, y), Status::Human),
        g.ticked().cell(x, y).smell_zombie == scent_sum(g.neighbors(x, y), Status::Zombie) / 3
            + emission(g.cell(x, y), Status::Zombie),
{
    lemma_neighbor_count(g, x, y);
}

/// Ticks keep the shape of a grid.
pub proof fn lemma_ticks_keep_shape(g: GridModel, ticks: nat)
    requires
        0 <= g.width,
    ensures
        g.after(ticks).width == g.width,
        g.after(ticks).height() == g.height(),
    decreases ticks,
{
    if ticks > 0 {
        lemma_ticks_keep_shape(g, (ticks - 1) as nat);
    }
}

/// After every tick, every cell of the grid is empty exactly when nobody is
/// in it.
pub proof fn lemma_empty_iff_unpopulated_after_every_tick(g: GridModel, ticks: nat, x: int, y: int)
    requires
        ticks >= 1,
        g.holds(x, y),
    ensures
        g.after(ticks).cell(x, y).population == 0 <==> g.after(ticks).cell(x, y).status
            == Status::Empty,
{
    let before = g.after((ticks - 1) as nat);
    lemma_ticks_keep_shape(g, (ticks - 1) as nat);
    lemma_empty_iff_unpopulated(before.cell(x, y), before.neighbors(x, y));
}

/// The simulation has no hidden state: two grids of the same shape that
/// agree cell by cell agree cell by cell after any number of ticks, and the
/// same ticks are defined for both.
pub proof fn lemma_ticks_are_determined(a: GridModel, b: GridModel, ticks: nat)
    requires
        a.width == b.width,
        a.height() == b.height(),
        forall|y: int| 0 <= y < a.height() ==> (#[trigger] a.rows[y]).len() == b.rows[y].len(),
        forall|x: int, y: int|
            0 <= y < a.height() && 0 <= x < a.rows[y].len() ==> #[trigger] a.cell(x, y) == b.cell(
                x,
                y,
            ),
    ensures
        a.after(ticks) == b.after(ticks),
        a.can_run(ticks) == b.can_run(ticks),
{
    assert forall|y: int| 0 <= y < a.height() implies #[trigger] a.rows[y] =~= b.rows[y] by {
        assert forall|x: int| 0 <= x < a.rows[y].len() implies a.rows[y][x] == b.rows[y][x] by {
            assert(a.cell(x, y) == b.cell(x, y));
        }
    }
    assert(a.rows =~= b.rows);
}

} // verus!
