use vstd::prelude::*;
use crate::grid::Grid;
use crate::individual::predator::predator_settled;
use crate::individual::predator::predator_step;
use crate::individual::predator::Predator;
use crate::individual::predator::PredatorDraws;
use crate::individual::prey::prey_settled;
use crate::individual::prey::prey_step;
use crate::individual::prey::Prey;
use crate::individual::prey::PreyDraws;

verus! {

/// What a site of the grid holds.
#[derive(Clone, Copy, Debug, PartialEq, Eq, Structural)]
pub enum Occupant {
    Empty,
    Prey(Prey),
    Predator(Predator),
}

/// One site of the grid: its coordinates, its occupant, and the indices of
/// the sites around it.
pub struct Cell {
    pub x: i32,
    pub y: i32,
    pub content: Occupant,
    pub neighbours: Vec<usize>,
}

/// `after` is `before` with the occupant of site `at`, if it has one, having
/// had its turn, as chance had it.
pub open spec fn site_step(
    before: Seq<Cell>,
    after: Seq<Cell>,
    width: int,
    height: int,
    at: int,
    nearest: Option<(i32, i32)>,
    vacated: bool,
) -> bool {
    match before[at].content {
        Occupant::Empty => after == before && !vacated,
        Occupant::Prey(_) => exists|draws: PreyDraws| prey_step(before, after, at, vacated, draws),
        Occupant::Predator(_) => exists|draws: PredatorDraws|
            predator_step(before, after, width, height, at, nearest, vacated, draws),
    }
}

impl Cell {
    pub fn new(x: i32, y: i32) -> (cell: Cell)
        ensures
            cell.x == x,
            cell.y == y,
            cell.content == Occupant::Empty,
            cell.neighbours@ == Seq::<usize>::empty(),
    {
        Cell { x, y, content: Occupant::Empty, neighbours: Vec::with_capacity(8) }
    }

    pub fn add_neighbour(&mut self, neighbour: usize)
        ensures
            final(self).neighbours@ == old(self).neighbours@.push(neighbour),
            final(self).x == old(self).x,
            final(self).y == old(self).y,
            final(self).content == old(self).content,
    {
        self.neighbours.push(neighbour);
    }

    pub fn empty(&mut self)
        ensures
            final(self).content == Occupant::Empty,
            final(self).x == old(self).x,
            final(self).y == old(self).y,
            final(self).neighbours == old(self).neighbours,
    {
        self.content = Occupant::Empty;
    }

    pub fn is_empty(&self) -> (b: bool)
        ensures
            b == (self.content is Empty),
    {
        match self.content {
            Occupant::Empty => true,
            _ => false,
        }
    }

    pub fn is_prey(&self) -> (b: bool)
        ensures
            b == (self.content is Prey),
    {
        match self.content {
            Occupant::Prey(_) => true,
            _ => false,
        }
    }

    pub fn is_predator(&self) -> (b: bool)
        ensures
            b == (self.content is Predator),
    {
        match self.content {
            Occupant::Predator(_) => true,
            _ => false,
        }
    }

    /// The turn of whatever lives at site `at`: nothing for an empty site,
    /// else the animal's own rules. `nearest_prey` is where the nearest prey
    /// was seen, which only a predator minds. Says whether the animal left
    /// the site.
    pub fn update(grid: &mut Grid, at: usize, nearest_prey: Option<(i32, i32)>) -> (vacated: bool)
        requires
            old(grid).wf(),
            at < old(grid)@.len(),
        ensures
            final(grid).wf(),
            final(grid).spec_width() == old(grid).spec_width(),
            final(grid).spec_height() == old(grid).spec_height(),
            site_step(
                old(grid)@,
                final(grid)@,
                old(grid).spec_width(),
                old(grid).spec_height(),
                at as int,
                nearest_prey,
                vacated,
            ),
            old(grid)@[at as int].content is Prey ==> prey_settled(
                old(grid)@,
                final(grid)@,
                at as int,
                vacated,
            ),
            old(grid)@[at as int].content is Predator ==> predator_settled(
                old(grid)@,
                final(grid)@,
                at as int,
                vacated,
            ),
    {
        match grid.cell(at).content {
            Occupant::Empty => false,
            Occupant::Prey(_) => Prey::update(grid, at),
            Occupant::Predator(_) => Predator::update(grid, at, nearest_prey),
        }
    }
}

} // verus!
