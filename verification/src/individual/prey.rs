use vstd::prelude::*;
use crate::cell::Cell;
use crate::cell::Occupant;
use crate::grid::empty_among;
use crate::grid::lemma_empty_among_members;
use crate::grid::lemma_grid_neighbours;
use crate::grid::neighbours_in_range;
use crate::grid::prey_among;
use crate::grid::with_content;
use crate::grid::Grid;
use crate::random::choose_site;
use crate::random::PROBABILITY_SCALE;
use crate::random::unit_draw;

verus! {

/// A prey animal. Both rates are thresholds out of `PROBABILITY_SCALE`.
#[derive(Clone, Copy, Debug, PartialEq, Eq, Structural)]
pub struct Prey {
    pub reproduction_factor: u32,
    pub moving_factor: u32,
}

/// The chances that one turn of a prey animal depends on: a draw for
/// reproduction, a draw for movement, and the empty site picked for
/// whichever of the two happens.
pub struct PreyDraws {
    pub reproduce: u32,
    pub travel: u32,
    pub target: Option<usize>,
}

/// The picked site is one of the empty sites around `at`, and one is picked
/// whenever there is any.
pub open spec fn target_valid(cells: Seq<Cell>, at: int, target: Option<usize>) -> bool {
    let empties = empty_among(cells, cells[at].neighbours@);
    &&& target is None <==> empties.len() == 0
    &&& target matches Some(site) ==> empties.contains(site)
}

/// The prey at `at` has young: it has room, between one and three prey
/// around it, and the draw is below its rate.
pub open spec fn prey_breeds(cells: Seq<Cell>, at: int, draw: u32) -> bool {
    let me = cells[at].content->Prey_0;
    let crowd = prey_among(cells, cells[at].neighbours@);
    &&& empty_among(cells, cells[at].neighbours@).len() > 0
    &&& 1 <= crowd < 4
    &&& draw < me.reproduction_factor
}

/// The prey at `at` leaves for another site: it has room and the draw is
/// below its rate.
pub open spec fn prey_travels(cells: Seq<Cell>, at: int, draw: u32) -> bool {
    let me = cells[at].content->Prey_0;
    &&& empty_among(cells, cells[at].neighbours@).len() > 0
    &&& draw < me.moving_factor
}

/// The prey at `at` vacates its site this turn.
pub open spec fn prey_vacates(cells: Seq<Cell>, at: int, draws: PreyDraws) -> bool {
    !prey_breeds(cells, at, draws.reproduce) && prey_travels(cells, at, draws.travel)
}

/// The grid after the turn of the prey at `at`: young at the picked site, or
/// else the animal itself moved there, or else nothing.
pub open spec fn prey_turn(cells: Seq<Cell>, at: int, draws: PreyDraws) -> Seq<Cell> {
    let me = cells[at].content->Prey_0;
    if prey_breeds(cells, at, draws.reproduce) {
        with_content(cells, draws.target->0 as int, Occupant::Prey(me))
    } else if prey_travels(cells, at, draws.travel) {
        with_content(
            with_content(cells, draws.target->0 as int, Occupant::Prey(me)),
            at,
            Occupant::Empty,
        )
    } else {
        cells
    }
}

/// Both draws are numbers that a draw can be: below `PROBABILITY_SCALE`.
pub open spec fn prey_draws_in_range(draws: PreyDraws) -> bool {
    draws.reproduce < PROBABILITY_SCALE && draws.travel < PROBABILITY_SCALE
}

/// `after` is `before` with the prey at `at` having had its turn on `draws`.
pub open spec fn prey_step(
    before: Seq<Cell>,
    after: Seq<Cell>,
    at: int,
    vacated: bool,
    draws: PreyDraws,
) -> bool {
    &&& prey_draws_in_range(draws)
    &&& target_valid(before, at, draws.target)
    &&& after == prey_turn(before, at, draws)
    &&& vacated == prey_vacates(before, at, draws)
}

/// Some draw gives the prey at `at` young: it has room, between one and
/// three prey around it, and a rate above zero.
pub open spec fn prey_can_breed(cells: Seq<Cell>, at: int) -> bool {
    prey_breeds(cells, at, 0)
}

/// Every draw gives the prey at `at` young: it has room, between one and
/// three prey around it, and its rate stands for certainty.
pub open spec fn prey_must_breed(cells: Seq<Cell>, at: int) -> bool {
    prey_breeds(cells, at, (PROBABILITY_SCALE - 1) as u32)
}

/// What the turn of the prey at `at` comes to where no draw decides. A prey
/// without room stays, and nothing changes. One that is certain to have
/// young stays. One that cannot have young leaves, when it has room and its
/// rate of movement stands for certainty, and stays, nothing on the grid
/// changing, when that rate is zero.
pub open spec fn prey_settled(before: Seq<Cell>, after: Seq<Cell>, at: int, vacated: bool) -> bool {
    let me = before[at].content->Prey_0;
    let room = empty_among(before, before[at].neighbours@).len() > 0;
    &&& !room ==> !vacated && after == before
    &&& prey_must_breed(before, at) ==> !vacated && after[at].content == before[at].content
    &&& !prey_can_breed(before, at) && room && me.moving_factor >= PROBABILITY_SCALE ==> vacated
        && after[at].content == Occupant::Empty
    &&& !prey_can_breed(before, at) && me.moving_factor == 0 ==> !vacated && after == before
}

/// Where no draw decides, the turn of a prey is decided: whatever the draws
/// of a turn, it comes to what `prey_settled` says, and young or the animal
/// itself are on the site that was picked.
pub proof fn lemma_prey_without_chance(
    before: Seq<Cell>,
    after: Seq<Cell>,
    at: int,
    vacated: bool,
    draws: PreyDraws,
)
    requires
        0 <= at < before.len(),
        before[at].content is Prey,
        neighbours_in_range(before),
        prey_step(before, after, at, vacated, draws),
    ensures
        prey_settled(before, after, at, vacated),
        prey_must_breed(before, at) ==> after == with_content(
            before,
            draws.target->0 as int,
            before[at].content,
        ),
        !prey_can_breed(before, at) && before[at].content->Prey_0.moving_factor
            >= PROBABILITY_SCALE && empty_among(before, before[at].neighbours@).len() > 0
            ==> after == with_content(
            with_content(before, draws.target->0 as int, before[at].content),
            at,
            Occupant::Empty,
        ),
{
    lemma_empty_among_members(before, before[at].neighbours@);
}

/// A prey with no empty site around it stays where it is, and nothing on
/// the grid changes in its turn, whatever the draws.
pub proof fn lemma_hemmed_prey_stays(cells: Seq<Cell>, at: int, draws: PreyDraws)
    requires
        0 <= at < cells.len(),
        cells[at].content is Prey,
        empty_among(cells, cells[at].neighbours@).len() == 0,
    ensures
        prey_turn(cells, at, draws) == cells,
        !prey_vacates(cells, at, draws),
{
}

impl Prey {
    pub fn new(reproduction_factor: u32, moving_factor: u32) -> (prey: Prey)
        ensures
            prey.reproduction_factor == reproduction_factor,
            prey.moving_factor == moving_factor,
    {
        Prey { reproduction_factor, moving_factor }
    }

    /// Moves the prey at `at` to `target` when the draw is below its rate.
    pub fn move_to(grid: &mut Grid, at: usize, draw: u32, target: Option<usize>) -> (moved: bool)
        requires
            old(grid).wf(),
            at < old(grid)@.len(),
            old(grid)@[at as int].content is Prey,
            target_valid(old(grid)@, at as int, target),
        ensures
            final(grid).wf(),
            final(grid).spec_width() == old(grid).spec_width(),
            final(grid).spec_height() == old(grid).spec_height(),
            moved == prey_travels(old(grid)@, at as int, draw),
            final(grid)@ == if moved {
                with_content(
                    with_content(
                        old(grid)@,
                        target->0 as int,
                        Occupant::Prey(old(grid)@[at as int].content->Prey_0),
                    ),
                    at as int,
                    Occupant::Empty,
                )
            } else {
                old(grid)@
            },
    {
        let me = match grid.cell(at).content {
            Occupant::Prey(prey) => prey,
            _ => { return false; },
        };
        match target {
            None => false,
            Some(site) => {
                if draw >= me.moving_factor {
                    return false;
                }
                proof {
                    lemma_grid_neighbours(grid@, grid.spec_width(), grid.spec_height());
                    lemma_empty_among_members(grid@, grid@[at as int].neighbours@);
                }
                grid.set_content(site, Occupant::Prey(me));
                grid.set_content(at, Occupant::Empty);
                true
            },
        }
    }

    /// Puts young of the prey at `at` on `target` when the animal has between
    /// one and three prey around it and the draw is below its rate.
    pub fn reproduce(grid: &mut Grid, at: usize, draw: u32, target: Option<usize>) -> (born: bool)
        requires
            old(grid).wf(),
            at < old(grid)@.len(),
            old(grid)@[at as int].content is Prey,
            target_valid(old(grid)@, at as int, target),
        ensures
            final(grid).wf(),
            final(grid).spec_width() == old(grid).spec_width(),
            final(grid).spec_height() == old(grid).spec_height(),
            born == prey_breeds(old(grid)@, at as int, draw),
            final(grid)@ == if born {
                with_content(
                    old(grid)@,
                    target->0 as int,
                    Occupant::Prey(old(grid)@[at as int].content->Prey_0),
                )
            } else {
                old(grid)@
            },
    {
        let me = match grid.cell(at).content {
            Occupant::Prey(prey) => prey,
            _ => { return false; },
        };
        match target {
            None => false,
            Some(site) => {
                let crowd: usize = grid.prey_neighbours(at);
                if crowd == 0 || crowd >= 4 || draw >= me.reproduction_factor {
                    return false;
                }
                proof {
                    lemma_grid_neighbours(grid@, grid.spec_width(), grid.spec_height());
                    lemma_empty_among_members(grid@, grid@[at as int].neighbours@);
                }
                grid.set_content(site, Occupant::Prey(Prey::new(me.reproduction_factor, me.moving_factor)));
                true
            },
        }
    }

    /// One turn of the prey at `at`: it has young, or else it moves, each as
    /// chance has it, into an empty site around it picked at random. Says
    /// whether the animal left its site.
    pub fn update(grid: &mut Grid, at: usize) -> (vacated: bool)
        requires
            old(grid).wf(),
            at < old(grid)@.len(),
            old(grid)@[at as int].content is Prey,
        ensures
            final(grid).wf(),
            final(grid).spec_width() == old(grid).spec_width(),
            final(grid).spec_height() == old(grid).spec_height(),
            exists|draws: PreyDraws| prey_step(old(grid)@, final(grid)@, at as int, vacated, draws),
            prey_settled(old(grid)@, final(grid)@, at as int, vacated),
    {
        let empties = grid.empty_neighbours(at);
        let target = choose_site(&empties);
        proof {
            lemma_grid_neighbours(grid@, grid.spec_width(), grid.spec_height());
            lemma_empty_among_members(grid@, grid@[at as int].neighbours@);
        }
        if target.is_none() {
            assert(prey_step(
                old(grid)@,
                grid@,
                at as int,
                false,
                PreyDraws { reproduce: 0, travel: 0, target },
            ));
            return false;
        }
        let breed: u32 = unit_draw();
        if Prey::reproduce(grid, at, breed, target) {
            assert(prey_step(
                old(grid)@,
                grid@,
                at as int,
                false,
                PreyDraws { reproduce: breed, travel: 0, target },
            ));
            return false;
        }
        let travel: u32 = unit_draw();
        let moved = Prey::move_to(grid, at, travel, target);
        assert(prey_step(
            old(grid)@,
            grid@,
            at as int,
            moved,
            PreyDraws { reproduce: breed, travel, target },
        ));
        moved
    }
}

} // verus!
