use vstd::prelude::*;
use crate::cell::Cell;
use crate::cell::Occupant;
use crate::grid::empty_among;
use crate::grid::first_at;
use crate::grid::first_prey_among;
use crate::grid::lemma_empty_among_members;
use crate::filters::lemma_filter_agree;
use crate::grid::lemma_first_at_none;
use crate::grid::lemma_first_members;
use crate::grid::prey_among;
use crate::grid::lemma_grid_neighbours;
use crate::grid::neighbours_in_range;
use crate::grid::predators_among;
use crate::grid::with_content;
use crate::geometry::lemma_wrap;
use crate::geometry::wrap;
use crate::geometry::wrap_coordinate;
use crate::grid::Grid;
use crate::individual::prey::target_valid;
use crate::random::choose_site;
use crate::random::PROBABILITY_SCALE;
use crate::random::unit_draw;

verus! {

/// A predator. The three rates are thresholds out of `PROBABILITY_SCALE`;
/// `hunger` counts the turns since the last kill and `max_hunger` is the
/// count at which the animal starves.
#[derive(Clone, Copy, Debug, PartialEq, Eq, Structural)]
pub struct Predator {
    pub reproduction_factor: u32,
    pub hunting_factor: u32,
    pub death_rate: u32,
    pub hunger: u32,
    pub max_hunger: u32,
}

/// The chances that one turn of a predator depends on: a draw for death, one
/// for the hunt, one for reproduction, and the empty site picked for young or
/// for a move without aim.
pub struct PredatorDraws {
    pub death: u32,
    pub hunt: u32,
    pub reproduce: u32,
    pub target: Option<usize>,
}

/// The predator one turn hungrier.
pub open spec fn aged(p: Predator) -> Predator {
    Predator { hunger: if p.hunger < u32::MAX { (p.hunger + 1) as u32 } else { p.hunger }, ..p }
}

/// The predator after a kill.
pub open spec fn sated(p: Predator) -> Predator {
    Predator { hunger: 0, ..p }
}

/// Young of the predator: its rates, and the hunger that every predator
/// starts with.
pub open spec fn newborn(p: Predator) -> Predator {
    Predator { hunger: p.max_hunger / 2, ..p }
}

/// A predator that has just grown hungrier dies: by chance, or of hunger.
pub open spec fn perishes(p: Predator, draw: u32) -> bool {
    draw < p.death_rate || p.hunger >= p.max_hunger
}

/// A predator too hungry to have young or to move: its hunger is at or above
/// half of what it starves at.
pub open spec fn famished(p: Predator) -> bool {
    2 * p.hunger >= p.max_hunger
}

/// The step, one site or none, from `from` towards `to` along an axis of
/// length `dim` whose ends meet: the shorter way round, and the direct way
/// when both are equally long.
pub open spec fn axis_step(from: int, to: int, dim: int) -> int {
    if to == from {
        0
    } else {
        let direct = if to > from { to - from } else { from - to };
        let toward: int = if to > from { 1 } else { -1 };
        if direct <= dim - direct {
            toward
        } else {
            -toward
        }
    }
}

/// How far two coordinates of an axis of length `dim` are apart, the shorter
/// way round.
pub open spec fn ring_distance(a: int, b: int, dim: int) -> int {
    let direct = if a > b { a - b } else { b - a };
    if direct <= dim - direct {
        direct
    } else {
        dim - direct
    }
}

/// A step towards a coordinate of the axis brings one site nearer to it, the
/// shorter way round; and there is no step only where the two are one.
pub proof fn lemma_step_closes_in(from: int, to: int, dim: int)
    requires
        0 <= from < dim,
        0 <= to < dim,
    ensures
        -1 <= axis_step(from, to, dim) <= 1,
        axis_step(from, to, dim) == 0 <==> from == to,
        from != to ==> ring_distance(wrap(from, axis_step(from, to, dim), dim), to, dim)
            == ring_distance(from, to, dim) - 1,
{
    lemma_wrap(from, axis_step(from, to, dim), dim);
}

/// The victim of the predator at `at`: the first site around it that holds
/// prey, when the draw is below the predator's rate.
pub open spec fn victim(cells: Seq<Cell>, at: int, draw: u32) -> Option<usize> {
    let me = cells[at].content->Predator_0;
    if draw < me.hunting_factor {
        first_prey_among(cells, cells[at].neighbours@)
    } else {
        None
    }
}

/// The grid after the hunt of the predator at `at`: the victim's site is
/// empty and the predator sated, or nothing has changed.
pub open spec fn hunted(cells: Seq<Cell>, at: int, draw: u32) -> Seq<Cell> {
    let me = cells[at].content->Predator_0;
    match victim(cells, at, draw) {
        Some(site) => with_content(
            with_content(cells, site as int, Occupant::Empty),
            at,
            Occupant::Predator(sated(me)),
        ),
        None => cells,
    }
}

/// The predator at `at` has young: it has room, between one and three
/// predators around it, and the draw is below its rate.
pub open spec fn predator_breeds(cells: Seq<Cell>, at: int, draw: u32) -> bool {
    let me = cells[at].content->Predator_0;
    let crowd = predators_among(cells, cells[at].neighbours@);
    &&& empty_among(cells, cells[at].neighbours@).len() > 0
    &&& 1 <= crowd < 4
    &&& draw < me.reproduction_factor
}

/// The empty site around `at` that lies one step towards `nearest`.
pub open spec fn aimed_site(
    cells: Seq<Cell>,
    width: int,
    height: int,
    at: int,
    nearest: Option<(i32, i32)>,
) -> Option<usize> {
    match nearest {
        None => None,
        Some(prey) => {
            let x = cells[at].x as int;
            let y = cells[at].y as int;
            first_at(
                cells,
                empty_among(cells, cells[at].neighbours@),
                wrap(x, axis_step(x, prey.0 as int, width), width),
                wrap(y, axis_step(y, prey.1 as int, height), height),
            )
        },
    }
}

/// Where the predator at `at` moves when it moves: one step towards
/// `nearest` where that site is empty, and to the picked site where it is
/// not, or no prey is known.
pub open spec fn destination(
    cells: Seq<Cell>,
    width: int,
    height: int,
    at: int,
    nearest: Option<(i32, i32)>,
    target: Option<usize>,
) -> Option<usize> {
    match aimed_site(cells, width, height, at, nearest) {
        Some(site) => Some(site),
        None => target,
    }
}

/// The grid after the predator at `at` has moved, if it has anywhere to go.
pub open spec fn relocated(
    cells: Seq<Cell>,
    width: int,
    height: int,
    at: int,
    nearest: Option<(i32, i32)>,
    target: Option<usize>,
) -> Seq<Cell> {
    match destination(cells, width, height, at, nearest, target) {
        Some(site) => with_content(
            with_content(cells, site as int, cells[at].content),
            at,
            Occupant::Empty,
        ),
        None => cells,
    }
}

/// The grid once the predator at `at` has grown hungrier and, if it lived,
/// hunted: the state in which it picks an empty site.
pub open spec fn after_hunt(cells: Seq<Cell>, at: int, draws: PredatorDraws) -> Seq<Cell> {
    let me = aged(cells[at].content->Predator_0);
    hunted(with_content(cells, at, Occupant::Predator(me)), at, draws.hunt)
}

/// The predator at `at` vacates its site this turn: it dies, or it moves.
pub open spec fn predator_vacates(
    cells: Seq<Cell>,
    width: int,
    height: int,
    at: int,
    nearest: Option<(i32, i32)>,
    draws: PredatorDraws,
) -> bool {
    let me = aged(cells[at].content->Predator_0);
    let fed = after_hunt(cells, at, draws);
    perishes(me, draws.death) || (!famished(fed[at].content->Predator_0) && !predator_breeds(
        fed,
        at,
        draws.reproduce,
    ) && destination(fed, width, height, at, nearest, draws.target) is Some)
}

/// The grid after the turn of the predator at `at`. It grows hungrier and
/// may die, which ends the turn. Else it hunts. Else, unless it is too
/// hungry, it has young at the picked site, or else moves.
pub open spec fn predator_turn(
    cells: Seq<Cell>,
    width: int,
    height: int,
    at: int,
    nearest: Option<(i32, i32)>,
    draws: PredatorDraws,
) -> Seq<Cell> {
    let me = aged(cells[at].content->Predator_0);
    if perishes(me, draws.death) {
        with_content(cells, at, Occupant::Empty)
    } else {
        let fed = after_hunt(cells, at, draws);
        let now = fed[at].content->Predator_0;
        if famished(now) {
            fed
        } else if predator_breeds(fed, at, draws.reproduce) {
            with_content(fed, draws.target->0 as int, Occupant::Predator(newborn(now)))
        } else {
            relocated(fed, width, height, at, nearest, draws.target)
        }
    }
}

/// The three draws are numbers that a draw can be: below
/// `PROBABILITY_SCALE`.
pub open spec fn predator_draws_in_range(draws: PredatorDraws) -> bool {
    &&& draws.death < PROBABILITY_SCALE
    &&& draws.hunt < PROBABILITY_SCALE
    &&& draws.reproduce < PROBABILITY_SCALE
}

/// `after` is `before` with the predator at `at` having had its turn on
/// `draws`, the site picked being an empty one around it after the hunt.
pub open spec fn predator_step(
    before: Seq<Cell>,
    after: Seq<Cell>,
    width: int,
    height: int,
    at: int,
    nearest: Option<(i32, i32)>,
    vacated: bool,
    draws: PredatorDraws,
) -> bool {
    &&& predator_draws_in_range(draws)
    &&& target_valid(after_hunt(before, at, draws), at, draws.target)
    &&& after == predator_turn(before, width, height, at, nearest, draws)
    &&& vacated == predator_vacates(before, width, height, at, nearest, draws)
}

/// A predator one turn short of starving is as hungry, a turn later, as it
/// can get, and that turn leaves its site empty and all else as it was,
/// whatever the draws.
pub proof fn lemma_starvation(
    cells: Seq<Cell>,
    width: int,
    height: int,
    at: int,
    nearest: Option<(i32, i32)>,
    draws: PredatorDraws,
)
    requires
        0 <= at < cells.len(),
        cells[at].content is Predator,
        cells[at].content->Predator_0.hunger == cells[at].content->Predator_0.max_hunger - 1,
    ensures
        aged(cells[at].content->Predator_0).hunger == cells[at].content->Predator_0.max_hunger,
        predator_turn(cells, width, height, at, nearest, draws) == with_content(
            cells,
            at,
            Occupant::Empty,
        ),
        predator_turn(cells, width, height, at, nearest, draws)[at].content == Occupant::Empty,
        predator_vacates(cells, width, height, at, nearest, draws),
{
}

/// A predator with no empty site around it that makes no kill stays where
/// it is or dies there: after its turn the grid differs from the one before
/// at most on its own site, which holds the predator, a turn hungrier, or
/// nothing.
pub proof fn lemma_hemmed_predator_stays(
    cells: Seq<Cell>,
    width: int,
    height: int,
    at: int,
    nearest: Option<(i32, i32)>,
    draws: PredatorDraws,
)
    requires
        0 <= at < cells.len(),
        cells[at].content is Predator,
        neighbours_in_range(cells),
        empty_among(cells, cells[at].neighbours@).len() == 0,
        victim(
            with_content(cells, at, Occupant::Predator(aged(cells[at].content->Predator_0))),
            at,
            draws.hunt,
        ) is None,
        target_valid(after_hunt(cells, at, draws), at, draws.target),
    ensures
        predator_turn(cells, width, height, at, nearest, draws) == if perishes(
            aged(cells[at].content->Predator_0),
            draws.death,
        ) {
            with_content(cells, at, Occupant::Empty)
        } else {
            with_content(cells, at, Occupant::Predator(aged(cells[at].content->Predator_0)))
        },
        predator_vacates(cells, width, height, at, nearest, draws) == perishes(
            aged(cells[at].content->Predator_0),
            draws.death,
        ),
{
    let me = aged(cells[at].content->Predator_0);
    let older = with_content(cells, at, Occupant::Predator(me));
    let sites = cells[at].neighbours@;
    lemma_same_company(cells, older, sites);
    if let Some(prey) = nearest {
        let x = older[at].x as int;
        let y = older[at].y as int;
        lemma_first_at_none(
            older,
            empty_among(older, sites),
            wrap(x, axis_step(x, prey.0 as int, width), width),
            wrap(y, axis_step(y, prey.1 as int, height), height),
        );
    }
}

/// Two grids that hold the same kinds of animals on the same sites have,
/// among `sites`, the same empty sites, as many prey, as many predators, and
/// the same first prey.
pub proof fn lemma_same_company(a: Seq<Cell>, b: Seq<Cell>, sites: Seq<usize>)
    requires
        a.len() == b.len(),
        forall|j: int| 0 <= j < sites.len() ==> (#[trigger] sites[j]) < a.len(),
        forall|i: int|
            0 <= i < a.len() ==> (a[i].content is Empty <==> b[i].content is Empty) && (
            a[i].content is Prey <==> b[i].content is Prey),
    ensures
        empty_among(a, sites) == empty_among(b, sites),
        prey_among(a, sites) == prey_among(b, sites),
        predators_among(a, sites) == predators_among(b, sites),
        first_prey_among(a, sites) == first_prey_among(b, sites),
{
    lemma_filter_agree(
        sites,
        |s: usize| a[s as int].content is Empty,
        |s: usize| b[s as int].content is Empty,
    );
    lemma_filter_agree(
        sites,
        |s: usize| a[s as int].content is Prey,
        |s: usize| b[s as int].content is Prey,
    );
    lemma_filter_agree(
        sites,
        |s: usize| a[s as int].content is Predator,
        |s: usize| b[s as int].content is Predator,
    );
}

/// The predator dies this turn whatever the draw: its death rate stands for
/// certainty, or it starves.
pub open spec fn doomed(p: Predator) -> bool {
    perishes(aged(p), (PROBABILITY_SCALE - 1) as u32)
}

/// The predator lives through this turn whatever the draw: its death rate
/// is zero and it does not starve.
pub open spec fn spared(p: Predator) -> bool {
    !perishes(aged(p), 0)
}

/// Some draw gives the predator at `at` young: it has room, between one and
/// three predators around it, and a rate above zero.
pub open spec fn predator_can_breed(cells: Seq<Cell>, at: int) -> bool {
    predator_breeds(cells, at, 0)
}

/// No draw gives the predator at `at` a kill: its rate is zero, or no site
/// around it holds prey.
pub open spec fn cannot_kill(cells: Seq<Cell>, at: int) -> bool {
    cells[at].content->Predator_0.hunting_factor == 0 || first_prey_among(
        cells,
        cells[at].neighbours@,
    ) is None
}

/// What the turn of the predator at `at` comes to where no draw decides.
///
/// - One that is doomed dies, and nothing else changes.
/// - One that is spared and whose hunting rate stands for certainty kills the
///   first prey around it: no prey is on that site afterwards.
/// - One that is spared and cannot kill stays, a turn hungrier, when that
///   makes it too hungry to act; else, when it cannot have young and has
///   room, it leaves its site.
pub open spec fn predator_settled(before: Seq<Cell>, after: Seq<Cell>, at: int, vacated: bool) -> bool {
    let me = before[at].content->Predator_0;
    let sites = before[at].neighbours@;
    &&& doomed(me) ==> vacated && after == with_content(before, at, Occupant::Empty)
    &&& spared(me) && me.hunting_factor >= PROBABILITY_SCALE ==> (first_prey_among(
        before,
        sites,
    ) matches Some(site) ==> !(after[site as int].content is Prey))
    &&& spared(me) && cannot_kill(before, at) && famished(aged(me)) ==> !vacated && after
        == with_content(before, at, Occupant::Predator(aged(me)))
    &&& spared(me) && cannot_kill(before, at) && !famished(aged(me)) && !predator_can_breed(
        before,
        at,
    ) && empty_among(before, sites).len() > 0 ==> vacated && after[at].content == Occupant::Empty
}

/// Where no draw decides, the turn of a predator is decided: whatever the
/// draws of a turn, it comes to what `predator_settled` says.
pub proof fn lemma_predator_without_chance(
    before: Seq<Cell>,
    after: Seq<Cell>,
    width: int,
    height: int,
    at: int,
    nearest: Option<(i32, i32)>,
    vacated: bool,
    draws: PredatorDraws,
)
    requires
        0 <= at < before.len(),
        before[at].content is Predator,
        neighbours_in_range(before),
        predator_step(before, after, width, height, at, nearest, vacated, draws),
    ensures
        predator_settled(before, after, at, vacated),
{
    let me = before[at].content->Predator_0;
    let sites = before[at].neighbours@;
    let older = with_content(before, at, Occupant::Predator(aged(me)));
    lemma_same_company(before, older, sites);
    lemma_first_members(before, sites, 0, 0);
    if spared(me) {
        let fed = after_hunt(before, at, draws);
        lemma_empty_among_members(fed, sites);
        if let Some(prey) = nearest {
            let x = fed[at].x as int;
            let y = fed[at].y as int;
            lemma_first_members(
                fed,
                empty_among(fed, sites),
                wrap(x, axis_step(x, prey.0 as int, width), width),
                wrap(y, axis_step(y, prey.1 as int, height), height),
            );
        }
    }
}

/// The step, one site or none, from `from` towards `to` along an axis of
/// length `dim` whose ends meet.
pub fn step_toward(from: i32, to: i32, dim: i32) -> (step: i32)
    ensures
        step == axis_step(from as int, to as int, dim as int),
        -1 <= step <= 1,
{
    if to == from {
        0
    } else if to > from {
        let direct: i64 = to as i64 - from as i64;
        if direct <= dim as i64 - direct {
            1
        } else {
            -1
        }
    } else {
        let direct: i64 = from as i64 - to as i64;
        if direct <= dim as i64 - direct {
            -1
        } else {
            1
        }
    }
}

impl Predator {
    /// A predator with the hunger that every predator starts with: half of
    /// what it starves at.
    pub fn new(reproduction_factor: u32, hunting_factor: u32, death_rate: u32, max_hunger: u32) -> (made:
        Predator)
        ensures
            made == (Predator {
                reproduction_factor,
                hunting_factor,
                death_rate,
                hunger: max_hunger / 2,
                max_hunger,
            }),
    {
        Predator { reproduction_factor, hunting_factor, death_rate, hunger: max_hunger / 2, max_hunger }
    }

    /// The predator one turn hungrier.
    pub fn grow_hungrier(self) -> (older: Predator)
        ensures
            older == aged(self),
    {
        let hunger: u32 = if self.hunger < u32::MAX { self.hunger + 1 } else { self.hunger };
        Predator { hunger, ..self }
    }

    /// Whether the predator is too hungry to have young or to move: whether
    /// twice its hunger reaches what it starves at.
    pub fn too_hungry(self) -> (b: bool)
        ensures
            b == famished(self),
    {
        2 * (self.hunger as u64) >= self.max_hunger as u64
    }

    /// The hunt of the predator at `at`: when the draw is below its rate, the
    /// first prey around it dies and the predator's hunger is gone.
    pub fn hunt(grid: &mut Grid, at: usize, draw: u32) -> (fed: bool)
        requires
            old(grid).wf(),
            at < old(grid)@.len(),
            old(grid)@[at as int].content is Predator,
        ensures
            final(grid).wf(),
            final(grid).spec_width() == old(grid).spec_width(),
            final(grid).spec_height() == old(grid).spec_height(),
            fed == victim(old(grid)@, at as int, draw) is Some,
            final(grid)@ == hunted(old(grid)@, at as int, draw),
            final(grid)@[at as int].content is Predator,
    {
        let me = match grid.cell(at).content {
            Occupant::Predator(predator) => predator,
            _ => { return false; },
        };
        if draw >= me.hunting_factor {
            return false;
        }
        match grid.first_prey_neighbour(at) {
            None => false,
            Some(site) => {
                grid.set_content(site, Occupant::Empty);
                grid.set_content(at, Occupant::Predator(Predator { hunger: 0, ..me }));
                true
            },
        }
    }

    /// Puts young of the predator at `at` on `target` when the animal has
    /// between one and three predators around it and the draw is below its
    /// rate.
    pub fn reproduce(grid: &mut Grid, at: usize, draw: u32, target: Option<usize>) -> (born: bool)
        requires
            old(grid).wf(),
            at < old(grid)@.len(),
            old(grid)@[at as int].content is Predator,
            target_valid(old(grid)@, at as int, target),
        ensures
            final(grid).wf(),
            final(grid).spec_width() == old(grid).spec_width(),
            final(grid).spec_height() == old(grid).spec_height(),
            born == predator_breeds(old(grid)@, at as int, draw),
            final(grid)@ == if born {
                with_content(
                    old(grid)@,
                    target->0 as int,
                    Occupant::Predator(newborn(old(grid)@[at as int].content->Predator_0)),
                )
            } else {
                old(grid)@
            },
    {
        let me = match grid.cell(at).content {
            Occupant::Predator(predator) => predator,
            _ => { return false; },
        };
        match target {
            None => false,
            Some(site) => {
                let crowd: usize = grid.predator_neighbours(at);
                if crowd == 0 || crowd >= 4 || draw >= me.reproduction_factor {
                    return false;
                }
                proof {
                    lemma_grid_neighbours(grid@, grid.spec_width(), grid.spec_height());
                    lemma_empty_among_members(grid@, grid@[at as int].neighbours@);
                }
                let young = Predator::new(
                    me.reproduction_factor,
                    me.hunting_factor,
                    me.death_rate,
                    me.max_hunger,
                );
                grid.set_content(site, Occupant::Predator(young));
                true
            },
        }
    }

    /// Moves the predator at `at`: one step towards `nearest_prey_pos` where
    /// that site is empty, else to `target`. It stays only where no site
    /// around it is empty.
    pub fn move_to(
        grid: &mut Grid,
        at: usize,
        nearest_prey_pos: Option<(i32, i32)>,
        target: Option<usize>,
    ) -> (moved: bool)
        requires
            old(grid).wf(),
            at < old(grid)@.len(),
            old(grid)@[at as int].content is Predator,
            target_valid(old(grid)@, at as int, target),
        ensures
            final(grid).wf(),
            final(grid).spec_width() == old(grid).spec_width(),
            final(grid).spec_height() == old(grid).spec_height(),
            moved == destination(
                old(grid)@,
                old(grid).spec_width(),
                old(grid).spec_height(),
                at as int,
                nearest_prey_pos,
                target,
            ) is Some,
            final(grid)@ == relocated(
                old(grid)@,
                old(grid).spec_width(),
                old(grid).spec_height(),
                at as int,
                nearest_prey_pos,
                target,
            ),
    {
        let me = grid.cell(at).content;
        proof {
            lemma_grid_neighbours(grid@, grid.spec_width(), grid.spec_height());
            lemma_empty_among_members(grid@, grid@[at as int].neighbours@);
        }
        let aimed = match nearest_prey_pos {
            None => None,
            Some(prey) => {
                let x: i32 = grid.cell(at).x;
                let y: i32 = grid.cell(at).y;
                let tx: i32 = wrap_coordinate(x, step_toward(x, prey.0, grid.width()), grid.width());
                let ty: i32 = wrap_coordinate(y, step_toward(y, prey.1, grid.height()), grid.height());
                let empties = grid.empty_neighbours(at);
                grid.first_site_at(&empties, tx, ty)
            },
        };
        let chosen = match aimed {
            Some(site) => Some(site),
            None => target,
        };
        match chosen {
            None => false,
            Some(site) => {
                grid.set_content(site, me);
                grid.set_content(at, Occupant::Empty);
                true
            },
        }
    }

    /// One turn of the predator at `at`, as chance has it. Says whether the
    /// animal left its site, dead or moved.
    pub fn update(grid: &mut Grid, at: usize, nearest_prey: Option<(i32, i32)>) -> (vacated: bool)
        requires
            old(grid).wf(),
            at < old(grid)@.len(),
            old(grid)@[at as int].content is Predator,
        ensures
            final(grid).wf(),
            final(grid).spec_width() == old(grid).spec_width(),
            final(grid).spec_height() == old(grid).spec_height(),
            exists|draws: PredatorDraws|
                predator_step(
                    old(grid)@,
                    final(grid)@,
                    old(grid).spec_width(),
                    old(grid).spec_height(),
                    at as int,
                    nearest_prey,
                    vacated,
                    draws,
                ),
            predator_settled(old(grid)@, final(grid)@, at as int, vacated),
    {
        let ghost before = grid@;
        let ghost width = grid.spec_width();
        let ghost height = grid.spec_height();
        proof {
            lemma_grid_neighbours(before, width, height);
        }
        let me = match grid.cell(at).content {
            Occupant::Predator(predator) => predator,
            _ => { return false; },
        };
        let older = me.grow_hungrier();
        let death: u32 = unit_draw();
        if death < older.death_rate || older.hunger >= older.max_hunger {
            grid.set_content(at, Occupant::Empty);
            proof {
                let fed = after_hunt(
                    before,
                    at as int,
                    PredatorDraws { death, hunt: 0, reproduce: 0, target: None },
                );
                let room = empty_among(fed, fed[at as int].neighbours@);
                let target = if room.len() == 0 {
                    None
                } else {
                    Some(room[0])
                };
                let draws = PredatorDraws { death, hunt: 0, reproduce: 0, target };
                assert(predator_step(before, grid@, width, height, at as int, nearest_prey, true, draws));
                lemma_predator_without_chance(
                    before,
                    grid@,
                    width,
                    height,
                    at as int,
                    nearest_prey,
                    true,
                    draws,
                );
            }
            return true;
        }
        grid.set_content(at, Occupant::Predator(older));
        let hunt: u32 = unit_draw();
        Predator::hunt(grid, at, hunt);
        let ghost fed = grid@;
        let now = match grid.cell(at).content {
            Occupant::Predator(predator) => predator,
            _ => { return false; },
        };
        if now.too_hungry() {
            proof {
                let room = empty_among(fed, fed[at as int].neighbours@);
                let target = if room.len() == 0 {
                    None
                } else {
                    Some(room[0])
                };
                let draws = PredatorDraws { death, hunt, reproduce: 0, target };
                assert(predator_step(before, grid@, width, height, at as int, nearest_prey, false, draws));
                lemma_predator_without_chance(
                    before,
                    grid@,
                    width,
                    height,
                    at as int,
                    nearest_prey,
                    false,
                    draws,
                );
            }
            return false;
        }
        let empties = grid.empty_neighbours(at);
        let target = choose_site(&empties);
        let reproduce: u32 = if target.is_some() {
            unit_draw()
        } else {
            0
        };
        let ghost draws = PredatorDraws { death, hunt, reproduce, target };
        if Predator::reproduce(grid, at, reproduce, target) {
            proof {
                assert(predator_step(before, grid@, width, height, at as int, nearest_prey, false, draws));
                lemma_predator_without_chance(
                    before,
                    grid@,
                    width,
                    height,
                    at as int,
                    nearest_prey,
                    false,
                    draws,
                );
            }
            return false;
        }
        let moved = Predator::move_to(grid, at, nearest_prey, target);
        proof {
            assert(predator_step(before, grid@, width, height, at as int, nearest_prey, moved, draws));
            lemma_predator_without_chance(
                before,
                grid@,
                width,
                height,
                at as int,
                nearest_prey,
                moved,
                draws,
            );
        }
        moved
    }
}

} // verus!
