//! The transition rule of one cell, stated over unbounded integers.
//!
//! Nothing here is executable. [`transition`] says what the next state of a
//! cell is, given the cell and its neighbours in the order in which they are
//! presented; the executable code in `zombie_state` is proved to compute it.

use vstd::prelude::*;
use crate::zombie_state::Status;

verus! {

/// A cell as the rules see it: the record of `ZombieState` with every number
/// taken as a mathematical integer.
pub struct CellModel {
    pub x: int,
    pub y: int,
    pub altitude: int,
    pub temperature: int,
    pub status: Status,
    pub population: int,
    pub direction: int,
    pub smell_human: int,
    pub smell_zombie: int,
}

/// The invariant of a cell: no count or scent is negative, the cell is empty
/// exactly when nobody is in it, and its direction is one of the nine codes.
pub open spec fn sound(c: CellModel) -> bool {
    &&& c.population >= 0
    &&& c.population == 0 <==> c.status == Status::Empty
    &&& 0 <= c.direction <= 8
    &&& c.smell_human >= 0
    &&& c.smell_zombie >= 0
}

/// What is left of a fight over a cell.
pub struct Outcome {
    pub status: Status,
    pub population: int,
}

/// Direction code meaning "stay".
pub open spec fn stay() -> int {
    8
}

/// The direction table. The eight compass directions are numbered clockwise
/// from north, north being one step towards smaller `y`; code 8 is no step at
/// all. Any other offset has no code.
pub open spec fn direction_code(dx: int, dy: int) -> Option<int> {
    if dx == 0 && dy == -1 {
        Some(0)
    } else if dx == 1 && dy == -1 {
        Some(1)
    } else if dx == 1 && dy == 0 {
        Some(2)
    } else if dx == 1 && dy == 1 {
        Some(3)
    } else if dx == 0 && dy == 1 {
        Some(4)
    } else if dx == -1 && dy == 1 {
        Some(5)
    } else if dx == -1 && dy == 0 {
        Some(6)
    } else if dx == -1 && dy == -1 {
        Some(7)
    } else if dx == 0 && dy == 0 {
        Some(8)
    } else {
        None
    }
}

/// The step that a direction code stands for: the direction table read the
/// other way.
pub open spec fn direction_offset(code: int) -> (int, int) {
    if code == 0 {
        (0, -1)
    } else if code == 1 {
        (1, -1)
    } else if code == 2 {
        (1, 0)
    } else if code == 3 {
        (1, 1)
    } else if code == 4 {
        (0, 1)
    } else if code == 5 {
        (-1, 1)
    } else if code == 6 {
        (-1, 0)
    } else if code == 7 {
        (-1, -1)
    } else {
        (0, 0)
    }
}

/// `b` lies at most one step from `a` along each axis, so the offset between
/// them has a direction code.
pub open spec fn within_reach(a: CellModel, b: CellModel) -> bool {
    direction_code(a.x - b.x, a.y - b.y) is Some
}

/// Every cell of `around` is within reach of `me`.
pub open spec fn all_within_reach(me: CellModel, around: Seq<CellModel>) -> bool {
    forall|i: int| 0 <= i < around.len() ==> within_reach(me, #[trigger] around[i])
}

/// The occupants of `from` have declared a move that ends on `me`.
pub open spec fn sends_to(from: CellModel, me: CellModel) -> bool {
    direction_code(me.x - from.x, me.y - from.y) == Some(from.direction)
}

/// Heads of `faction` that `from` sends into `me`.
pub open spec fn reinforcement(from: CellModel, me: CellModel, faction: Status) -> int {
    if from.status == faction && sends_to(from, me) {
        from.population
    } else {
        0
    }
}

/// Heads of `faction` arriving in `me` from all of `around`.
pub open spec fn incoming(around: Seq<CellModel>, me: CellModel, faction: Status) -> int
    decreases around.len(),
{
    if around.len() == 0 {
        0
    } else {
        incoming(around.drop_last(), me, faction) + reinforcement(around.last(), me, faction)
    }
}

/// Heads of `faction` that defend `me` from inside: the residents count only
/// if they declared to stay.
pub open spec fn garrison(me: CellModel, faction: Status) -> int {
    if me.status == faction && me.direction == stay() {
        me.population
    } else {
        0
    }
}

/// All heads of `faction` that take part in the fight over `me`.
pub open spec fn total(me: CellModel, around: Seq<CellModel>, faction: Status) -> int {
    incoming(around, me, faction) + garrison(me, faction)
}

/// Who holds a cell after the fight, and with how many.
///
/// On empty ground the larger side wins by the difference. Zombies that hold
/// their ground grow by a third of the humans they repelled. Humans that hold
/// a cell count threefold: the zombies need more than three per defender.
pub open spec fn combat(holder: Status, humans: int, zombies: int) -> Outcome {
    match holder {
        Status::Empty => {
            if humans > zombies {
                Outcome { status: Status::Human, population: humans - zombies }
            } else if humans < zombies {
                Outcome { status: Status::Zombie, population: zombies - humans }
            } else {
                Outcome { status: Status::Empty, population: 0 }
            }
        },
        Status::Zombie => {
            if humans > zombies {
                Outcome { status: Status::Human, population: humans - zombies }
            } else if humans < zombies {
                Outcome { status: Status::Zombie, population: zombies - humans + humans / 3 }
            } else {
                Outcome { status: Status::Empty, population: 0 }
            }
        },
        Status::Human => {
            if humans > zombies / 3 {
                Outcome { status: Status::Human, population: humans - zombies / 3 }
            } else if humans < zombies / 3 {
                Outcome {
                    status: Status::Zombie,
                    population: zombies - humans * 3 + humans / 3,
                }
            } else {
                Outcome { status: Status::Empty, population: 0 }
            }
        },
    }
}

/// A cell without occupants is empty, whoever won it.
pub open spec fn normalized(o: Outcome) -> Outcome {
    if o.population == 0 {
        Outcome { status: Status::Empty, population: 0 }
    } else {
        o
    }
}

/// Humans grow by one percent per tick, rounded down.
pub open spec fn grown(o: Outcome) -> Outcome {
    if o.status == Status::Human {
        Outcome { status: Status::Human, population: o.population * 101 / 100 }
    } else {
        o
    }
}

/// Status and population of `me` after one tick.
pub open spec fn settled(me: CellModel, around: Seq<CellModel>) -> Outcome {
    grown(
        normalized(
            combat(me.status, total(me, around, Status::Human), total(me, around, Status::Zombie)),
        ),
    )
}

/// The scent of `faction` that hangs over `c`.
pub open spec fn scent_of(c: CellModel, faction: Status) -> int {
    match faction {
        Status::Human => c.smell_human,
        Status::Zombie => c.smell_zombie,
        Status::Empty => 0,
    }
}

/// Sum of the scent of `faction` over `around`.
pub open spec fn scent_sum(around: Seq<CellModel>, faction: Status) -> int
    decreases around.len(),
{
    if around.len() == 0 {
        0
    } else {
        scent_sum(around.drop_last(), faction) + scent_of(around.last(), faction)
    }
}

/// What the residents of `me` add to the scent of `faction`.
pub open spec fn emission(me: CellModel, faction: Status) -> int {
    if me.status == faction {
        me.population
    } else {
        0
    }
}

/// Scent of `faction` over `me` after one tick: the average over the
/// neighbours that are there, rounded down, plus the residents' own.
pub open spec fn scent(me: CellModel, around: Seq<CellModel>, faction: Status) -> int {
    scent_sum(around, faction) / (around.len() as int) + emission(me, faction)
}

/// `a` attracts `seeker` strictly more than `b` does.
///
/// Zombies go for the stronger human scent, then the colder, then the lower
/// cell. Humans go for the weaker zombie scent, then the warmer, then the
/// higher cell.
pub open spec fn outranks(a: CellModel, b: CellModel, seeker: Status) -> bool {
    match seeker {
        Status::Zombie => {
            ||| a.smell_human > b.smell_human
            ||| a.smell_human == b.smell_human && a.temperature < b.temperature
            ||| a.smell_human == b.smell_human && a.temperature == b.temperature && a.altitude
                < b.altitude
        },
        Status::Human => {
            ||| a.smell_zombie < b.smell_zombie
            ||| a.smell_zombie == b.smell_zombie && a.temperature > b.temperature
            ||| a.smell_zombie == b.smell_zombie && a.temperature == b.temperature && a.altitude
                > b.altitude
        },
        Status::Empty => false,
    }
}

/// `around[k]` is the neighbour that `seeker` heads for: none attracts more,
/// and of several that attract alike it is the last.
pub open spec fn is_preferred(around: Seq<CellModel>, k: int, seeker: Status) -> bool {
    &&& 0 <= k < around.len()
    &&& forall|j: int| 0 <= j < around.len() ==> !outranks(#[trigger] around[j], around[k], seeker)
    &&& forall|j: int| k < j < around.len() ==> outranks(around[k], #[trigger] around[j], seeker)
}

/// Index of the neighbour that `seeker` heads for.
pub open spec fn preferred(around: Seq<CellModel>, seeker: Status) -> int {
    choose|k: int| is_preferred(around, k, seeker)
}

/// Among one or more neighbours there is a preferred one.
pub proof fn lemma_preferred_exists(around: Seq<CellModel>, seeker: Status)
    requires
        around.len() > 0,
    ensures
        is_preferred(around, preferred(around, seeker), seeker),
    decreases around.len(),
{
    let last: int = around.len() - 1;
    if around.len() == 1 {
        assert(is_preferred(around, 0, seeker));
    } else {
        let shorter = around.drop_last();
        lemma_preferred_exists(shorter, seeker);
        let k: int = preferred(shorter, seeker);
        if outranks(around[k], around[last], seeker) {
            assert forall|j: int| 0 <= j < around.len() implies !outranks(
                #[trigger] around[j],
                around[k],
                seeker,
            ) by {
                if j < last {
                    assert(!outranks(shorter[j], shorter[k], seeker));
                }
            }
            assert forall|j: int| k < j < around.len() implies outranks(
                around[k],
                #[trigger] around[j],
                seeker,
            ) by {
                if j < last {
                    assert(outranks(shorter[k], shorter[j], seeker));
                }
            }
            assert(is_preferred(around, k, seeker));
        } else {
            assert forall|j: int| 0 <= j < around.len() implies !outranks(
                #[trigger] around[j],
                around[last],
                seeker,
            ) by {
                if j < last {
                    assert(!outranks(shorter[j], shorter[k], seeker));
                }
            }
            assert(is_preferred(around, last, seeker));
        }
    }
}

/// At most one neighbour is the preferred one.
pub proof fn lemma_preferred_is_unique(around: Seq<CellModel>, a: int, b: int, seeker: Status)
    requires
        is_preferred(around, a, seeker),
        is_preferred(around, b, seeker),
    ensures
        a == b,
        preferred(around, seeker) == a,
{
    // Of two preferred neighbours the earlier would have to outrank the
    // later, which nothing outranks.
    if a < b {
        assert(outranks(around[a], around[b], seeker));
    }
    if b < a {
        assert(outranks(around[b], around[a], seeker));
    }
    let c: int = preferred(around, seeker);
    if a < c {
        assert(outranks(around[a], around[c], seeker));
    }
    if c < a {
        assert(outranks(around[c], around[a], seeker));
    }
}

/// Direction code of the step from `me` to `target`.
pub open spec fn toward(me: CellModel, target: CellModel) -> int {
    match direction_code(target.x - me.x, target.y - me.y) {
        Some(code) => code,
        None => stay(),
    }
}

/// Whether humans, `population` strong under a zombie scent of
/// `smell_zombie`, leave for `target`: to attack zombies they outnumber more
/// than three to one, or to retreat to a cell free of zombies that smells
/// less of them.
pub open spec fn moves_out(population: int, smell_zombie: int, target: CellModel) -> bool {
    let defenders = if target.status == Status::Zombie {
        target.population
    } else {
        0
    };
    ||| population / 3 > defenders
    ||| target.status != Status::Zombie && target.smell_zombie < smell_zombie
}

/// Direction that the occupants of `me` declare for the next tick, given the
/// state that the cell has just reached.
pub open spec fn heading(
    me: CellModel,
    around: Seq<CellModel>,
    status: Status,
    population: int,
    smell_zombie: int,
) -> int {
    match status {
        Status::Empty => stay(),
        Status::Zombie => toward(me, around[preferred(around, Status::Zombie)]),
        Status::Human => {
            let target = around[preferred(around, Status::Human)];
            if moves_out(population, smell_zombie, target) {
                toward(me, target)
            } else {
                stay()
            }
        },
    }
}

/// The state of `me` after one tick among the neighbours `around`.
pub open spec fn transition(me: CellModel, around: Seq<CellModel>) -> CellModel {
    let outcome = settled(me, around);
    let smell_human = scent(me, around, Status::Human);
    let smell_zombie = scent(me, around, Status::Zombie);
    CellModel {
        x: me.x,
        y: me.y,
        altitude: me.altitude,
        temperature: me.temperature,
        status: outcome.status,
        population: outcome.population,
        direction: heading(me, around, outcome.status, outcome.population, smell_zombie),
        smell_human,
        smell_zombie,
    }
}

/// Every number of `c` can be held in the record's machine integers.
pub open spec fn representable(c: CellModel) -> bool {
    &&& i32::MIN <= c.x <= i32::MAX
    &&& i32::MIN <= c.y <= i32::MAX
    &&& i32::MIN <= c.altitude <= i32::MAX
    &&& i32::MIN <= c.temperature <= i32::MAX
    &&& i32::MIN <= c.population <= i32::MAX
    &&& i8::MIN <= c.direction <= i8::MAX
    &&& i32::MIN <= c.smell_human <= i32::MAX
    &&& i32::MIN <= c.smell_zombie <= i32::MAX
}

/// The cases in which a tick is defined for `me`: it has at least one
/// neighbour, all of them are within reach, and the state it reaches can be
/// held in the record.
pub open spec fn can_step(me: CellModel, around: Seq<CellModel>) -> bool {
    &&& around.len() > 0
    &&& all_within_reach(me, around)
    &&& representable(transition(me, around))
}

} // verus!
