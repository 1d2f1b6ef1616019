use vstd::prelude::*;
use crate::cell::Cell;
use crate::cell::Occupant;
use crate::grid::grid_wf;
use crate::census::herd_of;
use crate::census::lemma_empty_grid_sites;
use crate::census::lemma_positions_match;
use crate::census::lemma_sites_bound;
use crate::grid::lemma_same_places;
use crate::census::lemma_sites_members;
use crate::census::pack_of;
use crate::census::positions;
use crate::census::predator_sites;
use crate::census::prey_sites;
use crate::geometry::site_index;
use crate::grid::with_content;
use crate::grid::Grid;
use crate::individual::predator::predator_step;
use crate::individual::predator::Predator;
use crate::individual::predator::PredatorDraws;
use crate::individual::prey::prey_step;
use crate::individual::prey::Prey;
use crate::individual::prey::PreyDraws;
use crate::nearest::build_index;
use crate::nearest::nearest_in;
use crate::nearest::nearest_point;
use crate::random::random_coordinate;

verus! {

/// Why a simulation cannot be made.
#[derive(Clone, Copy, Debug, PartialEq, Eq, Structural)]
pub enum ConfigError {
    /// The width or the height is not positive.
    EmptyGrid,
    /// The grid has more sites than can be indexed.
    TooLarge,
    /// More prey, or more predators, are asked for than the grid has sites.
    Overpopulated,
}

/// The rates and counts a simulation is made with. Rates are thresholds out
/// of `PROBABILITY_SCALE`.
#[derive(Clone, Copy, Debug, PartialEq, Eq, Structural)]
pub struct Settings {
    pub prey_reproduction_factor: u32,
    pub prey_moving_factor: u32,
    pub predator_reproduction_factor: u32,
    /// Kept with the settings; no rule of the predators reads it.
    pub predator_moving_factor: u32,
    pub predator_hunting_factor: u32,
    pub predator_death_rate: u32,
    pub predator_max_hunger: u32,
    pub nb_initial_prey: u32,
    pub nb_initial_predators: u32,
}

/// The prey that a simulation with these settings puts on the grid.
pub open spec fn prey_of(settings: Settings) -> Prey {
    Prey {
        reproduction_factor: settings.prey_reproduction_factor,
        moving_factor: settings.prey_moving_factor,
    }
}

/// The predator that a simulation with these settings puts on the grid.
pub open spec fn predator_of(settings: Settings) -> Predator {
    Predator {
        reproduction_factor: settings.predator_reproduction_factor,
        hunting_factor: settings.predator_hunting_factor,
        death_rate: settings.predator_death_rate,
        hunger: settings.predator_max_hunger / 2,
        max_hunger: settings.predator_max_hunger,
    }
}

/// `cells` after `animal` was put on each of `sites` in turn. What a site
/// held before is gone.
pub open spec fn seeded(cells: Seq<Cell>, sites: Seq<usize>, animal: Occupant) -> Seq<Cell>
    decreases sites.len(),
{
    if sites.len() == 0 {
        cells
    } else {
        with_content(seeded(cells, sites.drop_last(), animal), sites.last() as int, animal)
    }
}

/// `after` is `before` with the animals of `settings` put on the grid: prey on
/// each of `grazers` in turn, as many as the settings ask for, then predators
/// on each of `hunters`.
pub open spec fn seeding(
    before: Seq<Cell>,
    after: Seq<Cell>,
    settings: Settings,
    grazers: Seq<usize>,
    hunters: Seq<usize>,
) -> bool {
    &&& grazers.len() == settings.nb_initial_prey
    &&& hunters.len() == settings.nb_initial_predators
    &&& forall|k: int| 0 <= k < grazers.len() ==> (#[trigger] grazers[k]) < before.len()
    &&& forall|k: int| 0 <= k < hunters.len() ==> (#[trigger] hunters[k]) < before.len()
    &&& after == seeded(
        seeded(before, grazers, Occupant::Prey(prey_of(settings))),
        hunters,
        Occupant::Predator(predator_of(settings)),
    )
}

/// `after` is `before` with the predator seen on `site` when the step began
/// having had its turn, if one is still there. The prey it makes for is a
/// nearest one of `herd`, the prey seen when the step began.
pub open spec fn predator_stage(
    before: Seq<Cell>,
    after: Seq<Cell>,
    width: int,
    height: int,
    site: usize,
    herd: Seq<(i32, i32)>,
) -> bool {
    if before[site as int].content is Predator {
        exists|nearest: Option<(i32, i32)>, vacated: bool, draws: PredatorDraws|
            nearest_in(herd.to_set(), (before[site as int].x, before[site as int].y), nearest)
                && #[trigger] predator_step(
                before,
                after,
                width,
                height,
                site as int,
                nearest,
                vacated,
                draws,
            )
    } else {
        after == before
    }
}

/// `after` is `before` with the prey on `site` having had its turn, if the
/// site holds prey.
pub open spec fn prey_stage(before: Seq<Cell>, after: Seq<Cell>, site: usize) -> bool {
    if before[site as int].content is Prey {
        exists|vacated: bool, draws: PreyDraws| #[trigger]
            prey_step(before, after, site as int, vacated, draws)
    } else {
        after == before
    }
}

/// `trace` records the turns of the predators: the grid as the phase began,
/// then the grid after the turn of each of `hunters`, in order, ending with
/// `after`.
pub open spec fn hunt_trace(
    before: Seq<Cell>,
    after: Seq<Cell>,
    width: int,
    height: int,
    hunters: Seq<usize>,
    herd: Seq<(i32, i32)>,
    trace: Seq<Seq<Cell>>,
) -> bool {
    &&& trace.len() == hunters.len() + 1
    &&& trace[0] == before
    &&& trace.last() == after
    &&& forall|j: int|
        0 <= j < hunters.len() ==> predator_stage(
            trace[j],
            trace[j + 1],
            width,
            height,
            #[trigger] hunters[j],
            herd,
        )
}

/// `trace` records the turns of the prey: the grid as the phase began, then
/// the grid after the turn of each of `grazers`, in order, ending with
/// `after`.
pub open spec fn graze_trace(
    before: Seq<Cell>,
    after: Seq<Cell>,
    grazers: Seq<usize>,
    trace: Seq<Seq<Cell>>,
) -> bool {
    &&& trace.len() == grazers.len() + 1
    &&& trace[0] == before
    &&& trace.last() == after
    &&& forall|j: int|
        0 <= j < grazers.len() ==> prey_stage(trace[j], trace[j + 1], #[trigger] grazers[j])
}

/// `after` is `before` one step later. The predators seen when the step
/// began had their turns, in the order of their sites, which led to `fed`;
/// then the prey seen when the step began had theirs, in the order of their
/// sites.
pub open spec fn step_through(
    before: Seq<Cell>,
    fed: Seq<Cell>,
    after: Seq<Cell>,
    width: int,
    height: int,
) -> bool {
    &&& exists|trace: Seq<Seq<Cell>>| #[trigger]
        hunt_trace(
            before,
            fed,
            width,
            height,
            predator_sites(before),
            herd_of(before),
            trace,
        )
    &&& exists|trace: Seq<Seq<Cell>>| #[trigger]
        graze_trace(fed, after, prey_sites(before), trace)
}

/// The turns of the predators on `hunters`, in order. `nearest` holds, for
/// each of them, a prey nearest to it among the prey on the grid, or nothing
/// where there is no prey.
fn predator_phase(grid: &mut Grid, hunters: &Vec<usize>, nearest: &Vec<(i32, i32)>)
    requires
        old(grid).wf(),
        forall|k: int| 0 <= k < hunters@.len() ==> (#[trigger] hunters@[k]) < old(grid)@.len(),
        herd_of(old(grid)@).len() == 0 ==> nearest@.len() == 0,
        herd_of(old(grid)@).len() > 0 ==> nearest@.len() == hunters@.len(),
        forall|k: int|
            0 <= k < nearest@.len() ==> nearest_in(
                herd_of(old(grid)@).to_set(),
                positions(old(grid)@, hunters@)[k],
                Some(#[trigger] nearest@[k]),
            ),
    ensures
        final(grid).wf(),
        final(grid).spec_width() == old(grid).spec_width(),
        final(grid).spec_height() == old(grid).spec_height(),
        exists|trace: Seq<Seq<Cell>>| #[trigger]
            hunt_trace(
                old(grid)@,
                final(grid)@,
                old(grid).spec_width(),
                old(grid).spec_height(),
                hunters@,
                herd_of(old(grid)@),
                trace,
            ),
{
    let ghost before = grid@;
    let ghost herd = herd_of(before);
    let ghost width = grid.spec_width();
    let ghost height = grid.spec_height();
    let ghost mut trace: Seq<Seq<Cell>> = seq![before];
    let mut j: usize = 0;
    while j < hunters.len()
        invariant
            grid.wf(),
            grid.spec_width() == width,
            grid.spec_height() == height,
            grid_wf(before, width, height),
            herd == herd_of(before),
            forall|k: int| 0 <= k < hunters@.len() ==> (#[trigger] hunters@[k]) < before.len(),
            herd.len() == 0 ==> nearest@.len() == 0,
            herd.len() > 0 ==> nearest@.len() == hunters@.len(),
            forall|k: int|
                0 <= k < nearest@.len() ==> nearest_in(
                    herd.to_set(),
                    positions(before, hunters@)[k],
                    Some(#[trigger] nearest@[k]),
                ),
            j <= hunters@.len(),
            hunt_trace(before, grid@, width, height, hunters@.take(j as int), herd, trace),
        decreases hunters@.len() - j,
    {
        let at: usize = hunters[j];
        let ghost current = grid@;
        if grid.cell(at).is_predator() {
            let near = if j < nearest.len() {
                Some(nearest[j])
            } else {
                None
            };
            let vacated = Cell::update(grid, at, near);
            proof {
                lemma_same_places(before, current, width, height, at as int);
                let draws = choose|draws: PredatorDraws|
                    predator_step(current, grid@, width, height, at as int, near, vacated, draws);
                assert(nearest_in(herd.to_set(), (current[at as int].x, current[at as int].y), near)) by {
                    if j < nearest.len() {
                        assert(positions(before, hunters@)[j as int] == (
                            before[at as int].x,
                            before[at as int].y,
                        ));
                    } else {
                        assert forall|p: (i32, i32)| !herd.to_set().contains(p) by {}
                    }
                }
                assert(predator_step(current, grid@, width, height, at as int, near, vacated, draws));
            }
        }
        proof {
            let turns = hunters@.take(j + 1);
            let longer = trace.push(grid@);
            assert forall|k: int| 0 <= k < turns.len() implies predator_stage(
                longer[k],
                longer[k + 1],
                width,
                height,
                #[trigger] turns[k],
                herd,
            ) by {
                if k < j {
                    assert(hunters@.take(j as int)[k] == turns[k]);
                }
            }
            trace = longer;
        }
        j = j + 1;
    }
    assert(hunters@.take(hunters@.len() as int) =~= hunters@);
}

/// The turns of the prey on `grazers`, in order, where the sites still hold
/// prey.
fn prey_phase(grid: &mut Grid, grazers: &Vec<usize>)
    requires
        old(grid).wf(),
        forall|k: int| 0 <= k < grazers@.len() ==> (#[trigger] grazers@[k]) < old(grid)@.len(),
    ensures
        final(grid).wf(),
        final(grid).spec_width() == old(grid).spec_width(),
        final(grid).spec_height() == old(grid).spec_height(),
        exists|trace: Seq<Seq<Cell>>| #[trigger]
            graze_trace(old(grid)@, final(grid)@, grazers@, trace),
{
    let ghost before = grid@;
    let ghost mut trace: Seq<Seq<Cell>> = seq![before];
    let mut j: usize = 0;
    while j < grazers.len()
        invariant
            grid.wf(),
            grid.spec_width() == old(grid).spec_width(),
            grid.spec_height() == old(grid).spec_height(),
            grid@.len() == before.len(),
            forall|k: int| 0 <= k < grazers@.len() ==> (#[trigger] grazers@[k]) < before.len(),
            j <= grazers@.len(),
            graze_trace(before, grid@, grazers@.take(j as int), trace),
        decreases grazers@.len() - j,
    {
        let at: usize = grazers[j];
        let ghost current = grid@;
        if grid.cell(at).is_prey() {
            let vacated = Cell::update(grid, at, None);
            proof {
                let draws = choose|draws: PreyDraws| prey_step(current, grid@, at as int, vacated, draws);
                assert(prey_step(current, grid@, at as int, vacated, draws));
            }
        }
        proof {
            let turns = grazers@.take(j + 1);
            let longer = trace.push(grid@);
            assert forall|k: int| 0 <= k < turns.len() implies prey_stage(
                longer[k],
                longer[k + 1],
                #[trigger] turns[k],
            ) by {
                if k < j {
                    assert(grazers@.take(j as int)[k] == turns[k]);
                }
            }
            trace = longer;
        }
        j = j + 1;
    }
    assert(grazers@.take(grazers@.len() as int) =~= grazers@);
}

/// The two-species world: the grid, where its animals were after the last
/// step, and the settings it was made with.
pub struct Simulation {
    grid: Grid,
    prey_position: Vec<(i32, i32)>,
    predator_position: Vec<(i32, i32)>,
    settings: Settings,
}

/// The site at `(x, y)`, if the grid has one there.
pub fn get_cell(sim: &Simulation, x: i32, y: i32) -> (found: Option<&Cell>)
    requires
        sim.wf(),
    ensures
        found is Some <==> 0 <= x < sim.spec_width() && 0 <= y < sim.spec_height(),
        found matches Some(cell) ==> *cell == sim.cells()[site_index(
            x as int,
            y as int,
            sim.spec_width(),
        )] && cell.x == x && cell.y == y,
{
    match sim.grid.index_of(x, y) {
        Some(at) => Some(sim.grid.cell(at)),
        None => None,
    }
}

impl Simulation {
    pub closed spec fn cells(&self) -> Seq<Cell> {
        self.grid@
    }

    pub closed spec fn spec_width(&self) -> int {
        self.grid.spec_width()
    }

    pub closed spec fn spec_height(&self) -> int {
        self.grid.spec_height()
    }

    pub closed spec fn spec_settings(&self) -> Settings {
        self.settings
    }

    /// Where the prey were when the animals were last counted.
    pub closed spec fn prey_view(&self) -> Seq<(i32, i32)> {
        self.prey_position@
    }

    /// Where the predators were when the animals were last counted.
    pub closed spec fn predator_view(&self) -> Seq<(i32, i32)> {
        self.predator_position@
    }

    /// The grid is well formed, and the two lists of positions say where its
    /// prey and its predators are, in the order of their sites.
    pub open spec fn wf(&self) -> bool {
        &&& grid_wf(self.cells(), self.spec_width(), self.spec_height())
        &&& self.prey_view() == herd_of(self.cells())
        &&& self.predator_view() == pack_of(self.cells())
    }

    /// The animals counted are never more than the grid has sites.
    pub proof fn lemma_population_bound(&self)
        requires
            self.wf(),
        ensures
            self.prey_view().len() + self.predator_view().len() <= self.spec_width()
                * self.spec_height(),
    {
        lemma_sites_bound(self.cells());
    }

    /// A position is listed for the prey exactly when the site there holds
    /// prey, and for the predators exactly when it holds a predator; so none
    /// is listed for both.
    pub proof fn lemma_occupancy_exclusive(&self, x: i32, y: i32)
        requires
            self.wf(),
        ensures
            self.prey_view().contains((x, y)) <==> 0 <= x < self.spec_width() && 0 <= y
                < self.spec_height() && self.cells()[site_index(
                x as int,
                y as int,
                self.spec_width(),
            )].content is Prey,
            self.predator_view().contains((x, y)) <==> 0 <= x < self.spec_width() && 0 <= y
                < self.spec_height() && self.cells()[site_index(
                x as int,
                y as int,
                self.spec_width(),
            )].content is Predator,
            !(self.prey_view().contains((x, y)) && self.predator_view().contains((x, y))),
    {
        lemma_positions_match(self.cells(), self.spec_width(), self.spec_height(), x, y);
    }

    /// A simulation on a grid of empty sites. The rates are thresholds out
    /// of `PROBABILITY_SCALE`. Refused are a grid without sites, one too
    /// large to index, and more animals of a kind than there are sites.
    pub fn new(
        width: i32,
        height: i32,
        prey_reproduction_factor: u32,
        prey_moving_factor: u32,
        predator_reproduction_factor: u32,
        predator_moving_factor: u32,
        predator_hunting_factor: u32,
        predator_death_rate: u32,
        predator_max_hunger: u32,
        nb_initial_prey: u32,
        nb_initial_predators: u32,
    ) -> (made: Result<Simulation, ConfigError>)
        ensures
            width <= 0 || height <= 0 ==> made == Err::<Simulation, ConfigError>(
                ConfigError::EmptyGrid,
            ),
            0 < width && 0 < height && width * height > usize::MAX ==> made == Err::<
                Simulation,
                ConfigError,
            >(ConfigError::TooLarge),
            0 < width && 0 < height && width * height <= usize::MAX && (nb_initial_prey > width
                * height || nb_initial_predators > width * height) ==> made == Err::<
                Simulation,
                ConfigError,
            >(ConfigError::Overpopulated),
            0 < width && 0 < height && width * height <= usize::MAX && nb_initial_prey <= width
                * height && nb_initial_predators <= width * height ==> made is Ok,
            made matches Ok(sim) ==> {
                &&& sim.wf()
                &&& sim.spec_width() == width
                &&& sim.spec_height() == height
                &&& sim.spec_settings() == (Settings {
                    prey_reproduction_factor,
                    prey_moving_factor,
                    predator_reproduction_factor,
                    predator_moving_factor,
                    predator_hunting_factor,
                    predator_death_rate,
                    predator_max_hunger,
                    nb_initial_prey,
                    nb_initial_predators,
                })
                &&& forall|i: int|
                    0 <= i < sim.cells().len() ==> (#[trigger] sim.cells()[i]).content
                        == Occupant::Empty
                &&& sim.prey_view().len() == 0
                &&& sim.predator_view().len() == 0
            },
    {
        if width <= 0 || height <= 0 {
            return Err(ConfigError::EmptyGrid);
        }
        let grid = match Grid::new(width, height) {
            Some(grid) => grid,
            None => { return Err(ConfigError::TooLarge); },
        };
        let size: usize = grid.len();
        if nb_initial_prey as u64 > size as u64 || nb_initial_predators as u64 > size as u64 {
            return Err(ConfigError::Overpopulated);
        }
        proof {
            lemma_empty_grid_sites(grid@);
        }
        Ok(
            Simulation {
                grid,
                prey_position: Vec::new(),
                predator_position: Vec::new(),
                settings: Settings {
                    prey_reproduction_factor,
                    prey_moving_factor,
                    predator_reproduction_factor,
                    predator_moving_factor,
                    predator_hunting_factor,
                    predator_death_rate,
                    predator_max_hunger,
                    nb_initial_prey,
                    nb_initial_predators,
                },
            },
        )
    }

    /// Lays the grid out anew: every site empty, no animal anywhere.
    pub fn init_grid(&mut self)
        requires
            old(self).wf(),
        ensures
            final(self).wf(),
            final(self).spec_width() == old(self).spec_width(),
            final(self).spec_height() == old(self).spec_height(),
            final(self).spec_settings() == old(self).spec_settings(),
            forall|i: int|
                0 <= i < final(self).cells().len() ==> (#[trigger] final(self).cells()[i]).content
                    == Occupant::Empty,
            final(self).prey_view().len() == 0,
            final(self).predator_view().len() == 0,
    {
        match Grid::new(self.grid.width(), self.grid.height()) {
            Some(grid) => {
                proof {
                    lemma_empty_grid_sites(grid@);
                }
                self.grid = grid;
                self.prey_position = Vec::new();
                self.predator_position = Vec::new();
            },
            None => {},
        }
    }

    pub fn get_width(&self) -> (w: i32)
        ensures
            w == self.spec_width(),
    {
        self.grid.width()
    }

    pub fn get_height(&self) -> (h: i32)
        ensures
            h == self.spec_height(),
    {
        self.grid.height()
    }

    /// The number of prey when the animals were last counted.
    pub fn get_nb_prey(&self) -> (n: usize)
        ensures
            n == self.prey_view().len(),
    {
        self.prey_position.len()
    }

    /// The number of predators when the animals were last counted.
    pub fn get_nb_predators(&self) -> (n: usize)
        ensures
            n == self.predator_view().len(),
    {
        self.predator_position.len()
    }

    /// Where the prey were when the animals were last counted.
    pub fn prey_positions(&self) -> (found: &Vec<(i32, i32)>)
        ensures
            found@ == self.prey_view(),
    {
        &self.prey_position
    }

    /// Where the predators were when the animals were last counted.
    pub fn predator_positions(&self) -> (found: &Vec<(i32, i32)>)
        ensures
            found@ == self.predator_view(),
    {
        &self.predator_position
    }

    /// Counts the animals anew: the two lists of positions are read off the
    /// grid.
    fn reconcile(&mut self)
        requires
            old(self).grid.wf(),
        ensures
            final(self).wf(),
            final(self).grid == old(self).grid,
            final(self).settings == old(self).settings,
    {
        let grazers = self.grid.prey_sites();
        let hunters = self.grid.predator_sites();
        self.prey_position = self.grid.positions(&grazers);
        self.predator_position = self.grid.positions(&hunters);
    }

    /// Puts `animal` on as many sites as `count` says, each picked at random
    /// and independently of the others, so that a site may be picked twice.
    fn scatter(&mut self, count: u32, animal: Occupant)
        requires
            old(self).grid.wf(),
        ensures
            final(self).grid.wf(),
            final(self).grid.spec_width() == old(self).grid.spec_width(),
            final(self).grid.spec_height() == old(self).grid.spec_height(),
            final(self).settings == old(self).settings,
            exists|sites: Seq<usize>|
                {
                    &&& sites.len() == count
                    &&& forall|k: int| 0 <= k < sites.len() ==> (#[trigger] sites[k]) < old(self).grid@.len()
                    &&& final(self).grid@ == #[trigger] seeded(old(self).grid@, sites, animal)
                },
    {
        let ghost before = self.grid@;
        let ghost mut sites: Seq<usize> = Seq::empty();
        let width: i32 = self.grid.width();
        let height: i32 = self.grid.height();
        let mut done: u32 = 0;
        while done < count
            invariant
                self.grid.wf(),
                self.grid.spec_width() == old(self).grid.spec_width(),
                self.grid.spec_height() == old(self).grid.spec_height(),
                self.settings == old(self).settings,
                width == self.grid.spec_width(),
                height == self.grid.spec_height(),
                before == old(self).grid@,
                done <= count,
                sites.len() == done,
                forall|k: int| 0 <= k < sites.len() ==> (#[trigger] sites[k]) < before.len(),
                self.grid@ == seeded(before, sites, animal),
                self.grid@.len() == before.len(),
            decreases count - done,
        {
            let x: i32 = random_coordinate(width);
            let y: i32 = random_coordinate(height);
            match self.grid.index_of(x, y) {
                Some(at) => {
                    self.grid.set_content(at, animal);
                    proof {
                        assert(sites.push(at).drop_last() =~= sites);
                        sites = sites.push(at);
                    }
                },
                None => {},
            }
            done = done + 1;
        }
    }

    /// Puts the first animals on the grid: as many prey as the settings ask
    /// for, each on a site picked at random, then as many predators. An
    /// animal put on a site that holds one already takes its place.
    pub fn init_simulation(&mut self)
        requires
            old(self).wf(),
        ensures
            final(self).wf(),
            final(self).spec_width() == old(self).spec_width(),
            final(self).spec_height() == old(self).spec_height(),
            final(self).spec_settings() == old(self).spec_settings(),
            exists|grazers: Seq<usize>, hunters: Seq<usize>| #[trigger]
                seeding(
                    old(self).cells(),
                    final(self).cells(),
                    old(self).spec_settings(),
                    grazers,
                    hunters,
                ),
    {
        let ghost before = self.grid@;
        let prey = Prey::new(self.settings.prey_reproduction_factor, self.settings.prey_moving_factor);
        let predator = Predator::new(
            self.settings.predator_reproduction_factor,
            self.settings.predator_hunting_factor,
            self.settings.predator_death_rate,
            self.settings.predator_max_hunger,
        );
        self.scatter(self.settings.nb_initial_prey, Occupant::Prey(prey));
        let ghost stocked = self.grid@;
        let ghost grazers = choose|sites: Seq<usize>|
            {
                &&& sites.len() == self.settings.nb_initial_prey
                &&& forall|k: int| 0 <= k < sites.len() ==> (#[trigger] sites[k]) < before.len()
                &&& stocked == #[trigger] seeded(before, sites, Occupant::Prey(prey))
            };
        self.scatter(self.settings.nb_initial_predators, Occupant::Predator(predator));
        let ghost hunters = choose|sites: Seq<usize>|
            {
                &&& sites.len() == self.settings.nb_initial_predators
                &&& forall|k: int| 0 <= k < sites.len() ==> (#[trigger] sites[k]) < stocked.len()
                &&& self.grid@ == #[trigger] seeded(stocked, sites, Occupant::Predator(predator))
            };
        self.reconcile();
        assert(seeding(old(self).cells(), self.cells(), old(self).spec_settings(), grazers, hunters));
    }

    /// Puts `content` on the site at `(x, y)`, whatever it held, and counts
    /// the animals anew. Says whether the grid has such a site.
    pub fn place(&mut self, x: i32, y: i32, content: Occupant) -> (placed: bool)
        requires
            old(self).wf(),
        ensures
            final(self).wf(),
            final(self).spec_width() == old(self).spec_width(),
            final(self).spec_height() == old(self).spec_height(),
            final(self).spec_settings() == old(self).spec_settings(),
            placed <==> 0 <= x < old(self).spec_width() && 0 <= y < old(self).spec_height(),
            final(self).cells() == if placed {
                with_content(
                    old(self).cells(),
                    site_index(x as int, y as int, old(self).spec_width()),
                    content,
                )
            } else {
                old(self).cells()
            },
    {
        match self.grid.index_of(x, y) {
            Some(at) => {
                self.grid.set_content(at, content);
                self.reconcile();
                true
            },
            None => false,
        }
    }

    /// Puts a prey of this simulation's rates on the site at `(x, y)`,
    /// whatever it held. Says whether the grid has such a site.
    pub fn place_prey(&mut self, x: i32, y: i32) -> (placed: bool)
        requires
            old(self).wf(),
        ensures
            final(self).wf(),
            final(self).spec_width() == old(self).spec_width(),
            final(self).spec_height() == old(self).spec_height(),
            final(self).spec_settings() == old(self).spec_settings(),
            placed <==> 0 <= x < old(self).spec_width() && 0 <= y < old(self).spec_height(),
            final(self).cells() == if placed {
                with_content(
                    old(self).cells(),
                    site_index(x as int, y as int, old(self).spec_width()),
                    Occupant::Prey(prey_of(old(self).spec_settings())),
                )
            } else {
                old(self).cells()
            },
    {
        let prey = Prey::new(self.settings.prey_reproduction_factor, self.settings.prey_moving_factor);
        self.place(x, y, Occupant::Prey(prey))
    }

    /// Puts a predator of this simulation's rates, as hungry as every
    /// predator starts, on the site at `(x, y)`, whatever it held. Says
    /// whether the grid has such a site.
    pub fn place_predator(&mut self, x: i32, y: i32) -> (placed: bool)
        requires
            old(self).wf(),
        ensures
            final(self).wf(),
            final(self).spec_width() == old(self).spec_width(),
            final(self).spec_height() == old(self).spec_height(),
            final(self).spec_settings() == old(self).spec_settings(),
            placed <==> 0 <= x < old(self).spec_width() && 0 <= y < old(self).spec_height(),
            final(self).cells() == if placed {
                with_content(
                    old(self).cells(),
                    site_index(x as int, y as int, old(self).spec_width()),
                    Occupant::Predator(predator_of(old(self).spec_settings())),
                )
            } else {
                old(self).cells()
            },
    {
        let predator = Predator::new(
            self.settings.predator_reproduction_factor,
            self.settings.predator_hunting_factor,
            self.settings.predator_death_rate,
            self.settings.predator_max_hunger,
        );
        self.place(x, y, Occupant::Predator(predator))
    }

    /// For each of `predator_pos`, in order, a prey nearest to it among the
    /// prey last counted, by distance in the plane. Nothing at all where no
    /// prey was counted.
    pub fn get_nearest_preys(&self, predator_pos: Vec<(i32, i32)>) -> (found: Vec<(i32, i32)>)
        requires
            self.wf(),
            forall|k: int|
                0 <= k < predator_pos@.len() ==> 0 <= (#[trigger] predator_pos@[k]).0 && 0
                    <= predator_pos@[k].1,
        ensures
            self.prey_view().len() == 0 ==> found@.len() == 0,
            self.prey_view().len() > 0 ==> found@.len() == predator_pos@.len(),
            forall|k: int|
                0 <= k < found@.len() ==> nearest_in(
                    self.prey_view().to_set(),
                    predator_pos@[k],
                    Some(#[trigger] found@[k]),
                ),
    {
        let index = build_index(&self.prey_position);
        let ghost herd = self.prey_position@;
        proof {
            lemma_sites_members(self.grid@, self.grid.spec_width(), self.grid.spec_height());
            assert forall|p: (i32, i32)| #[trigger] herd.to_set().contains(p) implies 0 <= p.0 && 0
                <= p.1 by {
                let k = choose|k: int| 0 <= k < herd.len() && herd[k] == p;
                assert(herd[k] == p);
            }
        }
        let mut found: Vec<(i32, i32)> = Vec::new();
        let mut k: usize = 0;
        while k < predator_pos.len()
            invariant
                herd == self.prey_view(),
                crate::nearest::indexed_points(index) == herd.to_set(),
                forall|p: (i32, i32)| #[trigger] herd.to_set().contains(p) ==> 0 <= p.0 && 0 <= p.1,
                forall|j: int|
                    0 <= j < predator_pos@.len() ==> 0 <= (#[trigger] predator_pos@[j]).0 && 0
                        <= predator_pos@[j].1,
                k <= predator_pos@.len(),
                herd.len() == 0 ==> found@.len() == 0,
                herd.len() > 0 ==> found@.len() == k,
                forall|j: int|
                    0 <= j < found@.len() ==> nearest_in(
                        herd.to_set(),
                        predator_pos@[j],
                        Some(#[trigger] found@[j]),
                    ),
            decreases predator_pos@.len() - k,
        {
            let from = predator_pos[k];
            match nearest_point(&index, from.0, from.1) {
                Some(best) => {
                    proof {
                        if herd.len() == 0 {
                            assert(!herd.to_set().contains(best));
                        }
                    }
                    found.push(best);
                },
                None => {
                    proof {
                        if herd.len() > 0 {
                            assert(herd.to_set().contains(herd[0]));
                        }
                    }
                },
            }
            k = k + 1;
        }
        found
    }

    /// One step. The predators on the grid have their turns, in the order of
    /// their sites, each making for a prey nearest to it among those that
    /// were there when the step began; then the prey that were there then,
    /// where they still are. The animals are counted anew, and the positions
    /// of the prey and of the predators are returned.
    pub fn simulate(&mut self) -> (census: (Vec<(i32, i32)>, Vec<(i32, i32)>))
        requires
            old(self).wf(),
        ensures
            final(self).wf(),
            final(self).spec_width() == old(self).spec_width(),
            final(self).spec_height() == old(self).spec_height(),
            final(self).spec_settings() == old(self).spec_settings(),
            exists|fed: Seq<Cell>| #[trigger]
                step_through(
                    old(self).cells(),
                    fed,
                    final(self).cells(),
                    old(self).spec_width(),
                    old(self).spec_height(),
                ),
            census.0@ == final(self).prey_view(),
            census.1@ == final(self).predator_view(),
            census.0@.len() + census.1@.len() <= old(self).spec_width() * old(self).spec_height(),
    {
        let ghost before = self.grid@;
        let hunters = self.grid.predator_sites();
        let grazers = self.grid.prey_sites();
        let lairs = self.grid.positions(&hunters);
        proof {
            lemma_sites_members(before, self.grid.spec_width(), self.grid.spec_height());
        }
        let nearest = self.get_nearest_preys(lairs);
        predator_phase(&mut self.grid, &hunters, &nearest);
        let ghost fed = self.grid@;
        prey_phase(&mut self.grid, &grazers);
        self.reconcile();
        proof {
            assert(step_through(
                old(self).cells(),
                fed,
                self.cells(),
                old(self).spec_width(),
                old(self).spec_height(),
            ));
            self.lemma_population_bound();
        }
        let grazers_now = self.grid.prey_sites();
        let hunters_now = self.grid.predator_sites();
        (self.grid.positions(&grazers_now), self.grid.positions(&hunters_now))
    }
}

} // verus!
