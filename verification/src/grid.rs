use crate::cell::Cell;
use crate::cell::Occupant;
use crate::filters::lemma_filter_empty;
use crate::filters::lemma_filter_first;
use crate::filters::lemma_filter_head;
use crate::filters::lemma_filter_step;
use crate::geometry::lemma_neighbours_reached;
use crate::geometry::lemma_neighbours_through;
use crate::geometry::lemma_site_index_bounds;
use crate::geometry::lemma_site_index_injective;
use crate::geometry::lemma_way_back;
use crate::geometry::leads_to;
use crate::geometry::moore_offset;
use crate::geometry::moore_step;
use crate::geometry::neighbour_sites;
use crate::geometry::neighbours_through;
use crate::geometry::site_index;
use crate::geometry::wrap;
use crate::geometry::wrap_coordinate;
use vstd::prelude::*;

verus! {

/// Site `at` of a grid lies where its index says and knows the sites around it.
pub open spec fn site_wf(cell: Cell, at: int, width: int, height: int) -> bool {
    &&& 0 <= cell.x < width
    &&& 0 <= cell.y < height
    &&& site_index(cell.x as int, cell.y as int, width) == at
    &&& cell.neighbours@ == neighbour_sites(cell.x as int, cell.y as int, width, height)
}

/// `cells` is a grid of `width` by `height` sites, row after row, of a size
/// that can be indexed.
pub open spec fn grid_wf(cells: Seq<Cell>, width: int, height: int) -> bool {
    &&& 0 < width <= i32::MAX
    &&& 0 < height <= i32::MAX
    &&& cells.len() == width * height
    &&& cells.len() <= usize::MAX
    &&& forall|i: int| 0 <= i < cells.len() ==> site_wf(#[trigger] cells[i], i, width, height)
}

/// `cells` with the occupant of site `at` replaced.
pub open spec fn with_content(cells: Seq<Cell>, at: int, content: Occupant) -> Seq<Cell> {
    cells.update(at, Cell { content: content, ..cells[at] })
}

/// Every site of `cells` names only sites of `cells` as its neighbours.
pub open spec fn neighbours_in_range(cells: Seq<Cell>) -> bool {
    forall|i: int, k: int|
        0 <= i < cells.len() && 0 <= k < cells[i].neighbours@.len()
            ==> (#[trigger] cells[i].neighbours@[k]) < cells.len()
}

/// The sites among `sites` that are empty, in order.
pub open spec fn empty_among(cells: Seq<Cell>, sites: Seq<usize>) -> Seq<usize> {
    sites.filter(|s: usize| cells[s as int].content is Empty)
}

/// How many of `sites` hold prey.
pub open spec fn prey_among(cells: Seq<Cell>, sites: Seq<usize>) -> nat {
    sites.filter(|s: usize| cells[s as int].content is Prey).len()
}

/// How many of `sites` hold a predator.
pub open spec fn predators_among(cells: Seq<Cell>, sites: Seq<usize>) -> nat {
    sites.filter(|s: usize| cells[s as int].content is Predator).len()
}

/// The first of `sites` that holds prey.
pub open spec fn first_prey_among(cells: Seq<Cell>, sites: Seq<usize>) -> Option<usize> {
    let prey = sites.filter(|s: usize| cells[s as int].content is Prey);
    if prey.len() == 0 {
        None
    } else {
        Some(prey[0])
    }
}

/// The first of `sites` that lies at `(x, y)`.
pub open spec fn first_at(cells: Seq<Cell>, sites: Seq<usize>, x: int, y: int) -> Option<usize> {
    let there = sites.filter(|s: usize| cells[s as int].x == x && cells[s as int].y == y);
    if there.len() == 0 {
        None
    } else {
        Some(there[0])
    }
}

/// In a well-formed grid every neighbour index names a site of the grid, and
/// no site has more than eight of them.
pub proof fn lemma_grid_neighbours(cells: Seq<Cell>, width: int, height: int)
    requires
        grid_wf(cells, width, height),
    ensures
        neighbours_in_range(cells),
        forall|i: int| 0 <= i < cells.len() ==> (#[trigger] cells[i]).neighbours@.len() <= 8,
{
    assert forall|i: int| 0 <= i < cells.len() implies (#[trigger] cells[i]).neighbours@.len() <= 8
        && (forall|k: int|
        0 <= k < cells[i].neighbours@.len() ==> (#[trigger] cells[i].neighbours@[k]) < cells.len())
    by {
        lemma_neighbours_through(cells[i].x as int, cells[i].y as int, width, height, 8);
    }
}

/// Replacing an occupant leaves a grid well formed.
pub proof fn lemma_with_content_wf(cells: Seq<Cell>, width: int, height: int, at: int, content: Occupant)
    requires
        grid_wf(cells, width, height),
        0 <= at < cells.len(),
    ensures
        grid_wf(with_content(cells, at, content), width, height),
{
    let after = with_content(cells, at, content);
    assert forall|i: int| 0 <= i < after.len() implies site_wf(#[trigger] after[i], i, width, height) by {
        assert(site_wf(cells[i], i, width, height));
    }
}

/// Two well-formed grids of one size have their sites at the same places.
pub proof fn lemma_same_places(a: Seq<Cell>, b: Seq<Cell>, width: int, height: int, at: int)
    requires
        grid_wf(a, width, height),
        grid_wf(b, width, height),
        0 <= at < a.len(),
    ensures
        a[at].x == b[at].x,
        a[at].y == b[at].y,
        a[at].neighbours@ == b[at].neighbours@,
{
    assert(site_wf(a[at], at, width, height));
    assert(site_wf(b[at], at, width, height));
    lemma_site_index_injective(a[at].x as int, a[at].y as int, b[at].x as int, b[at].y as int, width);
}

/// A site is among the neighbours of each of its own neighbours: the sites
/// around a site are found the same way from either side, also across the
/// edges of the grid.
pub proof fn lemma_neighbour_symmetry(cells: Seq<Cell>, width: int, height: int, c: int, n: int)
    requires
        grid_wf(cells, width, height),
        0 <= c < cells.len(),
        0 <= n < cells.len(),
        cells[c].neighbours@.contains(n as usize),
    ensures
        cells[n].neighbours@.contains(c as usize),
{
    let x = cells[c].x as int;
    let y = cells[c].y as int;
    assert(site_wf(cells[c], c, width, height));
    assert(site_wf(cells[n], n, width, height));
    lemma_neighbours_reached(x, y, width, height, 8, n as usize);
    let k = choose|k: int| 0 <= k < 8 && #[trigger] leads_to(x, y, width, height, k, n as usize);
    let nx = wrap(x, moore_offset(k).0, width);
    let ny = wrap(y, moore_offset(k).1, height);
    lemma_way_back(x, y, width, height, k);
    lemma_site_index_bounds(nx, ny, width, height);
    lemma_site_index_injective(nx, ny, cells[n].x as int, cells[n].y as int, width);
    assert(leads_to(nx, ny, width, height, 7 - k, c as usize));
    lemma_neighbours_reached(nx, ny, width, height, 8, c as usize);
}

/// What `empty_among` keeps is among `sites` and is empty.
pub proof fn lemma_empty_among_members(cells: Seq<Cell>, sites: Seq<usize>)
    ensures
        forall|k: int|
            0 <= k < empty_among(cells, sites).len() ==> sites.contains(
                #[trigger] empty_among(cells, sites)[k],
            ) && cells[empty_among(cells, sites)[k] as int].content is Empty,
        forall|site: usize|
            empty_among(cells, sites).contains(site) ==> sites.contains(site)
                && cells[site as int].content is Empty,
    decreases sites.len(),
{
    reveal(Seq::filter);
    if sites.len() > 0 {
        lemma_empty_among_members(cells, sites.drop_last());
        let rest = empty_among(cells, sites.drop_last());
        assert forall|k: int| 0 <= k < empty_among(cells, sites).len() implies sites.contains(
            #[trigger] empty_among(cells, sites)[k],
        ) && cells[empty_among(cells, sites)[k] as int].content is Empty by {
            if k < rest.len() {
                let inner = choose|j: int| 0 <= j < sites.drop_last().len() && sites.drop_last()[j] == rest[k];
                assert(sites[inner] == rest[k]);
            } else {
                assert(sites[sites.len() - 1] == sites.last());
            }
        }
    }
}

/// The first of `sites` that lies at `(x, y)` is one of `sites`, and the
/// first of them that holds prey is one of them and holds prey.
pub proof fn lemma_first_members(cells: Seq<Cell>, sites: Seq<usize>, x: int, y: int)
    ensures
        first_at(cells, sites, x, y) matches Some(site) ==> sites.contains(site),
        first_prey_among(cells, sites) matches Some(site) ==> sites.contains(site)
            && cells[site as int].content is Prey,
{
    let there = |s: usize| cells[s as int].x == x && cells[s as int].y == y;
    let prey = |s: usize| cells[s as int].content is Prey;
    if sites.filter(there).len() > 0 {
        lemma_filter_head(sites, there);
    }
    if sites.filter(prey).len() > 0 {
        lemma_filter_head(sites, prey);
    }
}

/// Among no sites none lies anywhere.
pub proof fn lemma_first_at_none(cells: Seq<Cell>, sites: Seq<usize>, x: int, y: int)
    requires
        sites.len() == 0,
    ensures
        first_at(cells, sites, x, y) is None,
{
    sites.lemma_filter_len(|s: usize| cells[s as int].x == x && cells[s as int].y == y);
}

/// An empty site at `(x, y)` that knows the sites around it.
fn make_site(x: i32, y: i32, width: i32, height: i32) -> (cell: Cell)
    requires
        0 <= x < width,
        0 <= y < height,
        width * height <= usize::MAX,
    ensures
        site_wf(cell, site_index(x as int, y as int, width as int), width as int, height as int),
        cell.content == Occupant::Empty,
{
    let mut cell = Cell::new(x, y);
    let mut k: usize = 0;
    while k < 8
        invariant
            0 <= x < width,
            0 <= y < height,
            width * height <= usize::MAX,
            k <= 8,
            cell.x == x,
            cell.y == y,
            cell.content == Occupant::Empty,
            cell.neighbours@ == neighbours_through(x as int, y as int, width as int, height as int, k as nat),
        decreases 8 - k,
    {
        let offset = moore_step(k);
        let nx: i32 = wrap_coordinate(x, offset.0, width);
        let ny: i32 = wrap_coordinate(y, offset.1, height);
        if nx != x || ny != y {
            proof {
                lemma_site_index_bounds(nx as int, ny as int, width as int, height as int);
                assert(0 <= ny * width) by (nonlinear_arith)
                    requires
                        0 <= ny,
                        0 < width,
                ;
            }
            let row: usize = ny as usize * width as usize;
            cell.add_neighbour(row + nx as usize);
        }
        k = k + 1;
    }
    cell
}

/// The grid: `width` by `height` sites, stored row after row.
pub struct Grid {
    width: i32,
    height: i32,
    cells: Vec<Cell>,
}

impl View for Grid {
    type V = Seq<Cell>;

    closed spec fn view(&self) -> Seq<Cell> {
        self.cells@
    }
}

impl Grid {
    pub closed spec fn spec_width(&self) -> int {
        self.width as int
    }

    pub closed spec fn spec_height(&self) -> int {
        self.height as int
    }

    /// The sites lie where their indices say and know the sites around them.
    pub open spec fn wf(&self) -> bool {
        grid_wf(self@, self.spec_width(), self.spec_height())
    }

    /// A grid of empty sites. There is none without sites, nor one with more
    /// sites than can be indexed.
    pub fn new(width: i32, height: i32) -> (made: Option<Grid>)
        ensures
            made is Some <==> 0 < width && 0 < height && width * height <= usize::MAX,
            made matches Some(grid) ==> {
                &&& grid.wf()
                &&& grid.spec_width() == width
                &&& grid.spec_height() == height
                &&& forall|i: int| 0 <= i < grid@.len() ==> (#[trigger] grid@[i]).content == Occupant::Empty
            },
    {
        if width <= 0 || height <= 0 {
            return None;
        }
        assert(0 < width * height <= 0x3fff_ffff_0000_0001) by (nonlinear_arith)
            requires
                0 < width <= 0x7fff_ffff,
                0 < height <= 0x7fff_ffff,
        ;
        let size: u64 = width as u64 * height as u64;
        if size > usize::MAX as u64 {
            return None;
        }
        let mut cells: Vec<Cell> = Vec::new();
        let mut y: i32 = 0;
        while y < height
            invariant
                0 < width,
                0 <= y <= height,
                width * height <= usize::MAX,
                cells@.len() == y * width,
                forall|i: int|
                    0 <= i < cells@.len() ==> site_wf(#[trigger] cells@[i], i, width as int, height as int)
                        && cells@[i].content == Occupant::Empty,
            decreases height - y,
        {
            let mut x: i32 = 0;
            while x < width
                invariant
                    0 <= x <= width,
                    0 <= y < height,
                    width * height <= usize::MAX,
                    cells@.len() == y * width + x,
                    forall|i: int|
                        0 <= i < cells@.len() ==> site_wf(
                            #[trigger] cells@[i],
                            i,
                            width as int,
                            height as int,
                        ) && cells@[i].content == Occupant::Empty,
                decreases width - x,
            {
                let site = make_site(x, y, width, height);
                cells.push(site);
                x = x + 1;
            }
            assert((y + 1) * width == y * width + width) by (nonlinear_arith);
            y = y + 1;
        }
        assert(height * width == width * height) by (nonlinear_arith);
        Some(Grid { width, height, cells })
    }

    pub fn width(&self) -> (w: i32)
        ensures
            w == self.spec_width(),
    {
        self.width
    }

    pub fn height(&self) -> (h: i32)
        ensures
            h == self.spec_height(),
    {
        self.height
    }

    /// The number of sites.
    pub fn len(&self) -> (n: usize)
        ensures
            n == self@.len(),
    {
        self.cells.len()
    }

    /// The index of the site at `(x, y)`, if the grid has such a site.
    pub fn index_of(&self, x: i32, y: i32) -> (found: Option<usize>)
        requires
            self.wf(),
        ensures
            found is Some <==> 0 <= x < self.spec_width() && 0 <= y < self.spec_height(),
            found matches Some(at) ==> {
                &&& at == site_index(x as int, y as int, self.spec_width())
                &&& at < self@.len()
                &&& self@[at as int].x == x
                &&& self@[at as int].y == y
            },
    {
        if x < 0 || x >= self.width || y < 0 || y >= self.height {
            return None;
        }
        proof {
            lemma_site_index_bounds(x as int, y as int, self.width as int, self.height as int);
            assert(0 <= y * self.width) by (nonlinear_arith)
                requires
                    0 <= y,
                    0 < self.width,
            ;
            let at = site_index(x as int, y as int, self.width as int);
            let there = self.cells@[at];
            lemma_site_index_injective(
                x as int,
                y as int,
                there.x as int,
                there.y as int,
                self.width as int,
            );
        }
        let row: usize = y as usize * self.width as usize;
        Some(row + x as usize)
    }

    /// The site with index `at`.
    pub fn cell(&self, at: usize) -> (site: &Cell)
        requires
            at < self@.len(),
        ensures
            *site == self@[at as int],
    {
        &self.cells[at]
    }

    /// Replaces the occupant of site `at`.
    pub fn set_content(&mut self, at: usize, content: Occupant)
        requires
            at < old(self)@.len(),
        ensures
            final(self)@ == with_content(old(self)@, at as int, content),
            final(self).spec_width() == old(self).spec_width(),
            final(self).spec_height() == old(self).spec_height(),
            old(self).wf() ==> final(self).wf(),
    {
        proof {
            if self.wf() {
                lemma_with_content_wf(self@, self.spec_width(), self.spec_height(), at as int, content);
            }
        }
        self.cells[at].content = content;
    }

    /// The empty sites around site `at`, in the order of its neighbours.
    pub fn empty_neighbours(&self, at: usize) -> (found: Vec<usize>)
        requires
            self.wf(),
            at < self@.len(),
        ensures
            found@ == empty_among(self@, self@[at as int].neighbours@),
    {
        let count: usize = self.cells[at].neighbours.len();
        let ghost sites = self@[at as int].neighbours@;
        let ghost empty = |s: usize| self@[s as int].content is Empty;
        proof {
            lemma_grid_neighbours(self@, self.spec_width(), self.spec_height());
            lemma_filter_empty(empty);
        }
        let mut found: Vec<usize> = Vec::new();
        let mut k: usize = 0;
        while k < count
            invariant
                at < self@.len(),
                neighbours_in_range(self@),
                sites == self@[at as int].neighbours@,
                count == sites.len(),
                k <= count,
                empty == |s: usize| self@[s as int].content is Empty,
                found@ == sites.take(k as int).filter(empty),
            decreases count - k,
        {
            let site: usize = self.cells[at].neighbours[k];
            proof {
                lemma_filter_step(sites, k as int, empty);
            }
            if self.cells[site].is_empty() {
                found.push(site);
            }
            k = k + 1;
        }
        assert(sites.take(count as int) =~= sites);
        found
    }

    /// How many of the sites around site `at` hold prey.
    pub fn prey_neighbours(&self, at: usize) -> (count: usize)
        requires
            self.wf(),
            at < self@.len(),
        ensures
            count == prey_among(self@, self@[at as int].neighbours@),
    {
        let total: usize = self.cells[at].neighbours.len();
        let ghost sites = self@[at as int].neighbours@;
        let ghost prey = |s: usize| self@[s as int].content is Prey;
        proof {
            lemma_grid_neighbours(self@, self.spec_width(), self.spec_height());
            lemma_filter_empty(prey);
        }
        let mut count: usize = 0;
        let mut k: usize = 0;
        while k < total
            invariant
                at < self@.len(),
                neighbours_in_range(self@),
                sites == self@[at as int].neighbours@,
                total == sites.len(),
                k <= total,
                prey == |s: usize| self@[s as int].content is Prey,
                count == sites.take(k as int).filter(prey).len(),
                count <= k,
            decreases total - k,
        {
            let site: usize = self.cells[at].neighbours[k];
            proof {
                lemma_filter_step(sites, k as int, prey);
            }
            if self.cells[site].is_prey() {
                count = count + 1;
            }
            k = k + 1;
        }
        assert(sites.take(total as int) =~= sites);
        count
    }

    /// How many of the sites around site `at` hold a predator.
    pub fn predator_neighbours(&self, at: usize) -> (count: usize)
        requires
            self.wf(),
            at < self@.len(),
        ensures
            count == predators_among(self@, self@[at as int].neighbours@),
    {
        let total: usize = self.cells[at].neighbours.len();
        let ghost sites = self@[at as int].neighbours@;
        let ghost hunters = |s: usize| self@[s as int].content is Predator;
        proof {
            lemma_grid_neighbours(self@, self.spec_width(), self.spec_height());
            lemma_filter_empty(hunters);
        }
        let mut count: usize = 0;
        let mut k: usize = 0;
        while k < total
            invariant
                at < self@.len(),
                neighbours_in_range(self@),
                sites == self@[at as int].neighbours@,
                total == sites.len(),
                k <= total,
                hunters == |s: usize| self@[s as int].content is Predator,
                count == sites.take(k as int).filter(hunters).len(),
                count <= k,
            decreases total - k,
        {
            let site: usize = self.cells[at].neighbours[k];
            proof {
                lemma_filter_step(sites, k as int, hunters);
            }
            if self.cells[site].is_predator() {
                count = count + 1;
            }
            k = k + 1;
        }
        assert(sites.take(total as int) =~= sites);
        count
    }

    /// The first of the sites around site `at` that holds prey.
    pub fn first_prey_neighbour(&self, at: usize) -> (found: Option<usize>)
        requires
            self.wf(),
            at < self@.len(),
        ensures
            found == first_prey_among(self@, self@[at as int].neighbours@),
            found matches Some(site) ==> site < self@.len() && self@[site as int].content is Prey,
    {
        let total: usize = self.cells[at].neighbours.len();
        let ghost sites = self@[at as int].neighbours@;
        let ghost prey = |s: usize| self@[s as int].content is Prey;
        proof {
            lemma_grid_neighbours(self@, self.spec_width(), self.spec_height());
            lemma_filter_empty(prey);
        }
        let mut k: usize = 0;
        while k < total
            invariant
                at < self@.len(),
                neighbours_in_range(self@),
                sites == self@[at as int].neighbours@,
                total == sites.len(),
                k <= total,
                prey == |s: usize| self@[s as int].content is Prey,
                sites.take(k as int).filter(prey).len() == 0,
            decreases total - k,
        {
            let site: usize = self.cells[at].neighbours[k];
            if self.cells[site].is_prey() {
                proof {
                    lemma_filter_first(sites, k as int, prey);
                }
                return Some(site);
            }
            proof {
                lemma_filter_step(sites, k as int, prey);
            }
            k = k + 1;
        }
        assert(sites.take(total as int) =~= sites);
        None
    }

    /// The first of `sites` that lies at `(x, y)`.
    pub fn first_site_at(&self, sites: &Vec<usize>, x: i32, y: i32) -> (found: Option<usize>)
        requires
            forall|k: int| 0 <= k < sites@.len() ==> (#[trigger] sites@[k]) < self@.len(),
        ensures
            found == first_at(self@, sites@, x as int, y as int),
            found matches Some(site) ==> sites@.contains(site),
    {
        let ghost there = |s: usize| self@[s as int].x == x as int && self@[s as int].y == y as int;
        proof {
            lemma_filter_empty(there);
        }
        let mut k: usize = 0;
        while k < sites.len()
            invariant
                forall|j: int| 0 <= j < sites@.len() ==> (#[trigger] sites@[j]) < self@.len(),
                k <= sites@.len(),
                there == |s: usize| self@[s as int].x == x as int && self@[s as int].y == y as int,
                sites@.take(k as int).filter(there).len() == 0,
            decreases sites@.len() - k,
        {
            let site: usize = sites[k];
            if self.cells[site].x == x && self.cells[site].y == y {
                proof {
                    lemma_filter_first(sites@, k as int, there);
                }
                return Some(site);
            }
            proof {
                lemma_filter_step(sites@, k as int, there);
            }
            k = k + 1;
        }
        assert(sites@.take(sites@.len() as int) =~= sites@);
        None
    }
}

} // verus!
