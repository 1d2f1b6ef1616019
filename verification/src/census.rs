use crate::cell::Cell;
use crate::cell::Occupant;
use crate::filters::lemma_filter_disjoint;
use crate::filters::lemma_filter_empty;
use crate::filters::lemma_filter_none;
use crate::filters::lemma_filter_step;
use crate::geometry::lemma_site_index_bounds;
use crate::geometry::lemma_site_index_injective;
use crate::geometry::site_index;
use crate::grid::grid_wf;
use crate::grid::site_wf;
use crate::grid::Grid;
use vstd::prelude::*;

verus! {

/// The indices of a grid of `n` sites, in order.
pub open spec fn all_sites(n: nat) -> Seq<usize> {
    Seq::new(n, |i: int| i as usize)
}

/// The sites that hold prey, in the order of their indices.
pub open spec fn prey_sites(cells: Seq<Cell>) -> Seq<usize> {
    all_sites(cells.len()).filter(|s: usize| cells[s as int].content is Prey)
}

/// The sites that hold a predator, in the order of their indices.
pub open spec fn predator_sites(cells: Seq<Cell>) -> Seq<usize> {
    all_sites(cells.len()).filter(|s: usize| cells[s as int].content is Predator)
}

/// The coordinates of `sites`.
pub open spec fn positions(cells: Seq<Cell>, sites: Seq<usize>) -> Seq<(i32, i32)> {
    sites.map_values(|s: usize| (cells[s as int].x, cells[s as int].y))
}

/// Where the prey are, in the order of their sites.
pub open spec fn herd_of(cells: Seq<Cell>) -> Seq<(i32, i32)> {
    positions(cells, prey_sites(cells))
}

/// Where the predators are, in the order of their sites.
pub open spec fn pack_of(cells: Seq<Cell>) -> Seq<(i32, i32)> {
    positions(cells, predator_sites(cells))
}

/// A grid of empty sites has no prey sites and no predator sites.
pub proof fn lemma_empty_grid_sites(cells: Seq<Cell>)
    requires
        forall|i: int| 0 <= i < cells.len() ==> (#[trigger] cells[i]).content == Occupant::Empty,
    ensures
        prey_sites(cells) == Seq::<usize>::empty(),
        predator_sites(cells) == Seq::<usize>::empty(),
        herd_of(cells) == Seq::<(i32, i32)>::empty(),
        pack_of(cells) == Seq::<(i32, i32)>::empty(),
{
    lemma_filter_none(all_sites(cells.len()), |s: usize| cells[s as int].content is Prey);
    lemma_filter_none(all_sites(cells.len()), |s: usize| cells[s as int].content is Predator);
}

/// The sites that a scan for prey or for predators finds are sites of the
/// grid that hold what the scan looked for, and their coordinates lie in the
/// grid.
pub proof fn lemma_sites_members(cells: Seq<Cell>, width: int, height: int)
    requires
        grid_wf(cells, width, height),
    ensures
        forall|k: int|
            0 <= k < prey_sites(cells).len() ==> (#[trigger] prey_sites(cells)[k]) < cells.len()
                && cells[prey_sites(cells)[k] as int].content is Prey,
        forall|k: int|
            0 <= k < predator_sites(cells).len() ==> (#[trigger] predator_sites(cells)[k])
                < cells.len() && cells[predator_sites(cells)[k] as int].content is Predator,
        forall|k: int|
            0 <= k < herd_of(cells).len() ==> 0 <= (#[trigger] herd_of(cells)[k]).0 < width
                && 0 <= herd_of(cells)[k].1 < height,
        forall|k: int|
            0 <= k < pack_of(cells).len() ==> 0 <= (#[trigger] pack_of(cells)[k]).0 < width
                && 0 <= pack_of(cells)[k].1 < height,
{
    let sites = all_sites(cells.len());
    let prey = |s: usize| cells[s as int].content is Prey;
    let hunters = |s: usize| cells[s as int].content is Predator;
    assert forall|k: int| 0 <= k < sites.filter(prey).len() implies (#[trigger] sites.filter(prey)[k])
        < cells.len() && prey(sites.filter(prey)[k]) by {
        sites.lemma_filter_pred(prey, k);
        sites.lemma_filter_contains_rev(prey, sites.filter(prey)[k]);
    }
    assert forall|k: int| 0 <= k < sites.filter(hunters).len() implies (#[trigger] sites.filter(
        hunters,
    )[k]) < cells.len() && hunters(sites.filter(hunters)[k]) by {
        sites.lemma_filter_pred(hunters, k);
        sites.lemma_filter_contains_rev(hunters, sites.filter(hunters)[k]);
    }
    assert forall|k: int| 0 <= k < herd_of(cells).len() implies 0 <= (#[trigger] herd_of(
        cells,
    )[k]).0 < width && 0 <= herd_of(cells)[k].1 < height by {
        let site = prey_sites(cells)[k];
        assert(site_wf(cells[site as int], site as int, width, height));
    }
    assert forall|k: int| 0 <= k < pack_of(cells).len() implies 0 <= (#[trigger] pack_of(
        cells,
    )[k]).0 < width && 0 <= pack_of(cells)[k].1 < height by {
        let site = predator_sites(cells)[k];
        assert(site_wf(cells[site as int], site as int, width, height));
    }
}

/// A grid holds no more animals than it has sites.
pub proof fn lemma_sites_bound(cells: Seq<Cell>)
    ensures
        prey_sites(cells).len() + predator_sites(cells).len() <= cells.len(),
        herd_of(cells).len() == prey_sites(cells).len(),
        pack_of(cells).len() == predator_sites(cells).len(),
{
    lemma_filter_disjoint(
        all_sites(cells.len()),
        |s: usize| cells[s as int].content is Prey,
        |s: usize| cells[s as int].content is Predator,
    );
}

/// In a well-formed grid the positions of the prey are the coordinates of
/// the sites that hold prey, those of the predators the coordinates of the
/// sites that hold a predator, and no position is among both.
pub proof fn lemma_positions_match(cells: Seq<Cell>, width: int, height: int, x: i32, y: i32)
    requires
        grid_wf(cells, width, height),
    ensures
        herd_of(cells).contains((x, y)) <==> 0 <= x < width && 0 <= y < height
            && cells[site_index(x as int, y as int, width)].content is Prey,
        pack_of(cells).contains((x, y)) <==> 0 <= x < width && 0 <= y
            < height && cells[site_index(x as int, y as int, width)].content is Predator,
        !(herd_of(cells).contains((x, y)) && pack_of(cells).contains((x, y))),
{
    let sites = all_sites(cells.len());
    let prey = |s: usize| cells[s as int].content is Prey;
    let hunters = |s: usize| cells[s as int].content is Predator;
    let grazing = herd_of(cells);
    let hunting = pack_of(cells);
    lemma_sites_members(cells, width, height);
    if grazing.contains((x, y)) {
        let k = choose|k: int| 0 <= k < grazing.len() && grazing[k] == (x, y);
        let site = prey_sites(cells)[k];
        assert(site_wf(cells[site as int], site as int, width, height));
    }
    if hunting.contains((x, y)) {
        let k = choose|k: int| 0 <= k < hunting.len() && hunting[k] == (x, y);
        let site = predator_sites(cells)[k];
        assert(site_wf(cells[site as int], site as int, width, height));
    }
    if 0 <= x < width && 0 <= y < height {
        lemma_site_index_bounds(x as int, y as int, width, height);
        let site = site_index(x as int, y as int, width);
        assert(site_wf(cells[site], site, width, height));
        lemma_site_index_injective(
            x as int,
            y as int,
            cells[site].x as int,
            cells[site].y as int,
            width,
        );
        assert(sites[site] == site as usize);
        if cells[site].content is Prey {
            sites.lemma_filter_contains(prey, site);
            let k = choose|k: int| 0 <= k < sites.filter(prey).len() && sites.filter(prey)[k] == site as usize;
            assert(grazing[k] == (x, y));
        }
        if cells[site].content is Predator {
            sites.lemma_filter_contains(hunters, site);
            let k = choose|k: int|
                0 <= k < sites.filter(hunters).len() && sites.filter(hunters)[k] == site as usize;
            assert(hunting[k] == (x, y));
        }
    }
}

impl Grid {
    /// The sites that hold prey, in the order of their indices.
    pub fn prey_sites(&self) -> (found: Vec<usize>)
        ensures
            found@ == prey_sites(self@),
            forall|k: int| 0 <= k < found@.len() ==> (#[trigger] found@[k]) < self@.len(),
    {
        let size: usize = self.len();
        let ghost sites = all_sites(self@.len());
        let ghost prey = |s: usize| self@[s as int].content is Prey;
        proof {
            lemma_filter_empty(prey);
        }
        let mut found: Vec<usize> = Vec::new();
        let mut at: usize = 0;
        while at < size
            invariant
                size == self@.len(),
                sites == all_sites(self@.len()),
                at <= size,
                prey == |s: usize| self@[s as int].content is Prey,
                found@ == sites.take(at as int).filter(prey),
                forall|k: int| 0 <= k < found@.len() ==> (#[trigger] found@[k]) < self@.len(),
            decreases size - at,
        {
            proof {
                lemma_filter_step(sites, at as int, prey);
            }
            if self.cell(at).is_prey() {
                found.push(at);
            }
            at = at + 1;
        }
        assert(sites.take(size as int) =~= sites);
        found
    }

    /// The sites that hold a predator, in the order of their indices.
    pub fn predator_sites(&self) -> (found: Vec<usize>)
        ensures
            found@ == predator_sites(self@),
            forall|k: int| 0 <= k < found@.len() ==> (#[trigger] found@[k]) < self@.len(),
    {
        let size: usize = self.len();
        let ghost sites = all_sites(self@.len());
        let ghost hunters = |s: usize| self@[s as int].content is Predator;
        proof {
            lemma_filter_empty(hunters);
        }
        let mut found: Vec<usize> = Vec::new();
        let mut at: usize = 0;
        while at < size
            invariant
                size == self@.len(),
                sites == all_sites(self@.len()),
                at <= size,
                hunters == |s: usize| self@[s as int].content is Predator,
                found@ == sites.take(at as int).filter(hunters),
                forall|k: int| 0 <= k < found@.len() ==> (#[trigger] found@[k]) < self@.len(),
            decreases size - at,
        {
            proof {
                lemma_filter_step(sites, at as int, hunters);
            }
            if self.cell(at).is_predator() {
                found.push(at);
            }
            at = at + 1;
        }
        assert(sites.take(size as int) =~= sites);
        found
    }

    /// The coordinates of `sites`.
    pub fn positions(&self, sites: &Vec<usize>) -> (found: Vec<(i32, i32)>)
        requires
            forall|k: int| 0 <= k < sites@.len() ==> (#[trigger] sites@[k]) < self@.len(),
        ensures
            found@ == positions(self@, sites@),
    {
        let mut found: Vec<(i32, i32)> = Vec::new();
        let mut k: usize = 0;
        while k < sites.len()
            invariant
                forall|j: int| 0 <= j < sites@.len() ==> (#[trigger] sites@[j]) < self@.len(),
                k <= sites@.len(),
                found@ == positions(self@, sites@.take(k as int)),
            decreases sites@.len() - k,
        {
            let site: usize = sites[k];
            found.push((self.cell(site).x, self.cell(site).y));
            k = k + 1;
        }
        found
    }
}

} // verus!
