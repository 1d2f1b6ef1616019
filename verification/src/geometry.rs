use vstd::arithmetic::div_mod::lemma_mod_add_multiples_vanish;
use vstd::arithmetic::div_mod::lemma_mod_self_0;
use vstd::arithmetic::div_mod::lemma_small_mod;
use vstd::prelude::*;

verus! {

/// The `k`-th of the eight offsets to the sites around a site.
pub open spec fn moore_offset(k: int) -> (int, int) {
    if k == 0 {
        (-1, -1)
    } else if k == 1 {
        (-1, 0)
    } else if k == 2 {
        (-1, 1)
    } else if k == 3 {
        (0, -1)
    } else if k == 4 {
        (0, 1)
    } else if k == 5 {
        (1, -1)
    } else if k == 6 {
        (1, 0)
    } else {
        (1, 1)
    }
}

/// A coordinate moved by `offset` on an axis of length `dim` whose ends meet.
pub open spec fn wrap(c: int, offset: int, dim: int) -> int {
    (c + offset + dim) % dim
}

/// The index of the site at `(x, y)` in a grid `width` sites wide.
pub open spec fn site_index(x: int, y: int, width: int) -> int {
    y * width + x
}

/// The indices of the sites around `(x, y)` that the first `k` offsets reach,
/// in the order of the offsets. An offset that leads back to `(x, y)` itself
/// reaches nothing.
pub open spec fn neighbours_through(x: int, y: int, width: int, height: int, k: nat) -> Seq<usize>
    decreases k,
{
    if k == 0 {
        Seq::empty()
    } else {
        let rest = neighbours_through(x, y, width, height, (k - 1) as nat);
        let offset = moore_offset(k - 1);
        let nx = wrap(x, offset.0, width);
        let ny = wrap(y, offset.1, height);
        if nx == x && ny == y {
            rest
        } else {
            rest.push(site_index(nx, ny, width) as usize)
        }
    }
}

/// The `k`-th offset leads from `(x, y)` to `site`, another site.
pub open spec fn leads_to(x: int, y: int, width: int, height: int, k: int, site: usize) -> bool {
    let nx = wrap(x, moore_offset(k).0, width);
    let ny = wrap(y, moore_offset(k).1, height);
    !(nx == x && ny == y) && site == site_index(nx, ny, width) as usize
}

/// The indices of all the sites around `(x, y)`.
pub open spec fn neighbour_sites(x: int, y: int, width: int, height: int) -> Seq<usize> {
    neighbours_through(x, y, width, height, 8)
}

/// On an axis of length `dim`, a step of at most one site from a coordinate
/// of the axis ends on the axis: at the far end when it leaves by the near
/// one, at the near end when it leaves by the far one.
pub proof fn lemma_wrap(c: int, offset: int, dim: int)
    requires
        0 <= c < dim,
        -1 <= offset <= 1,
    ensures
        wrap(c, offset, dim) == if c + offset < 0 {
            c + offset + dim
        } else if c + offset >= dim {
            c + offset - dim
        } else {
            c + offset
        },
        0 <= wrap(c, offset, dim) < dim,
{
    let moved = c + offset;
    if moved < 0 {
        lemma_small_mod((moved + dim) as nat, dim as nat);
    } else if moved >= dim {
        lemma_mod_add_multiples_vanish(dim, dim);
        lemma_mod_self_0(dim);
    } else {
        lemma_mod_add_multiples_vanish(moved, dim);
        lemma_small_mod(moved as nat, dim as nat);
    }
}

/// The index of a site of the grid is below the number of its sites.
pub proof fn lemma_site_index_bounds(x: int, y: int, width: int, height: int)
    by (nonlinear_arith)
    requires
        0 <= x < width,
        0 <= y < height,
    ensures
        0 <= site_index(x, y, width) < width * height,
{
}

/// Two sites of one index are one site.
pub proof fn lemma_site_index_injective(x1: int, y1: int, x2: int, y2: int, width: int)
    by (nonlinear_arith)
    requires
        0 <= x1 < width,
        0 <= x2 < width,
        site_index(x1, y1, width) == site_index(x2, y2, width),
    ensures
        x1 == x2,
        y1 == y2,
{
}

/// A site has no more neighbours than offsets were tried, and each is a site
/// of the grid.
pub proof fn lemma_neighbours_through(x: int, y: int, width: int, height: int, k: nat)
    requires
        0 <= x < width,
        0 <= y < height,
        k <= 8,
        width * height <= usize::MAX,
    ensures
        neighbours_through(x, y, width, height, k).len() <= k,
        forall|j: int|
            0 <= j < neighbours_through(x, y, width, height, k).len() ==> (
            #[trigger] neighbours_through(x, y, width, height, k)[j]) < width * height,
    decreases k,
{
    if k > 0 {
        lemma_neighbours_through(x, y, width, height, (k - 1) as nat);
        let offset = moore_offset(k - 1);
        lemma_wrap(x, offset.0, width);
        lemma_wrap(y, offset.1, height);
        lemma_site_index_bounds(wrap(x, offset.0, width), wrap(y, offset.1, height), width, height);
    }
}

/// The sites around `(x, y)` that the first `k` offsets reach are those that
/// one of these offsets leads to, but for `(x, y)` itself.
pub proof fn lemma_neighbours_reached(x: int, y: int, width: int, height: int, k: nat, site: usize)
    requires
        0 <= x < width,
        0 <= y < height,
        k <= 8,
        width * height <= usize::MAX,
    ensures
        neighbours_through(x, y, width, height, k).contains(site) <==> exists|j: int|
            0 <= j < k && #[trigger] leads_to(x, y, width, height, j, site),
    decreases k,
{
    let through = neighbours_through(x, y, width, height, k);
    if k == 0 {
        assert(!through.contains(site));
    } else {
        let rest = neighbours_through(x, y, width, height, (k - 1) as nat);
        lemma_neighbours_reached(x, y, width, height, (k - 1) as nat, site);
        let last = k - 1;
        if through.contains(site) {
            let i = choose|i: int| 0 <= i < through.len() && through[i] == site;
            if i < rest.len() {
                assert(rest[i] == site);
                let j = choose|j: int| 0 <= j < k - 1 && #[trigger] leads_to(x, y, width, height, j, site);
                assert(leads_to(x, y, width, height, j, site));
            } else {
                assert(leads_to(x, y, width, height, last, site));
            }
        }
        if exists|j: int| 0 <= j < k && #[trigger] leads_to(x, y, width, height, j, site) {
            let j = choose|j: int| 0 <= j < k && #[trigger] leads_to(x, y, width, height, j, site);
            if j < k - 1 {
                assert(rest.contains(site));
                let i = choose|i: int| 0 <= i < rest.len() && rest[i] == site;
                assert(through[i] == site);
            } else {
                assert(through[through.len() - 1] == site);
            }
        }
    }
}

/// The turn back: the offset opposite to the `k`-th leads from where the
/// `k`-th leads to back to where it started.
pub proof fn lemma_way_back(x: int, y: int, width: int, height: int, k: int)
    requires
        0 <= x < width,
        0 <= y < height,
        0 <= k < 8,
    ensures
        wrap(wrap(x, moore_offset(k).0, width), moore_offset(7 - k).0, width) == x,
        wrap(wrap(y, moore_offset(k).1, height), moore_offset(7 - k).1, height) == y,
        0 <= wrap(x, moore_offset(k).0, width) < width,
        0 <= wrap(y, moore_offset(k).1, height) < height,
{
    lemma_wrap(x, moore_offset(k).0, width);
    lemma_wrap(y, moore_offset(k).1, height);
    lemma_wrap(wrap(x, moore_offset(k).0, width), moore_offset(7 - k).0, width);
    lemma_wrap(wrap(y, moore_offset(k).1, height), moore_offset(7 - k).1, height);
}

/// The `k`-th of the eight offsets.
pub fn moore_step(k: usize) -> (offset: (i32, i32))
    requires
        k < 8,
    ensures
        offset.0 == moore_offset(k as int).0,
        offset.1 == moore_offset(k as int).1,
{
    if k == 0 {
        (-1, -1)
    } else if k == 1 {
        (-1, 0)
    } else if k == 2 {
        (-1, 1)
    } else if k == 3 {
        (0, -1)
    } else if k == 4 {
        (0, 1)
    } else if k == 5 {
        (1, -1)
    } else if k == 6 {
        (1, 0)
    } else {
        (1, 1)
    }
}

/// Moves a coordinate one site, or none, along an axis whose ends meet.
pub fn wrap_coordinate(c: i32, offset: i32, dim: i32) -> (moved: i32)
    requires
        0 <= c < dim,
        -1 <= offset <= 1,
    ensures
        moved == wrap(c as int, offset as int, dim as int),
        0 <= moved < dim,
{
    proof {
        lemma_wrap(c as int, offset as int, dim as int);
    }
    if offset < 0 && c == 0 {
        dim - 1
    } else if offset > 0 && c == dim - 1 {
        0
    } else {
        c + offset
    }
}

} // verus!
