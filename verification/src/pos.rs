//! Grid coordinates, the row-major layout of the flat cell stores, and the
//! four-neighbour moves that the cost field allows.

use vstd::prelude::*;
use pathfinding::prelude::absdiff;
use crate::{MAPSIZE_MAX_X, MAPSIZE_MAX_Y};

verus! {

/// Cost of a cell that cannot be entered.
pub const IMPASSABLE: usize = usize::MAX;

/// A grid cell coordinate `(x, y)`.
#[derive(Clone, Copy, Debug, Hash, PartialEq, Eq, Ord, Structural)]
pub struct Pos(pub i32, pub i32);

/// Number of cells of the grid, the length of each flat store.
pub open spec fn map_len() -> int {
    MAPSIZE_MAX_X as int * MAPSIZE_MAX_Y as int
}

/// The bounds predicate shared by every accessor.
pub open spec fn in_bounds(x: int, y: int) -> bool {
    0 <= x < MAPSIZE_MAX_X as int && 0 <= y < MAPSIZE_MAX_Y as int
}

/// Row-major index of cell `(x, y)`.
pub open spec fn cell_index(x: int, y: int) -> int {
    x + MAPSIZE_MAX_X as int * y
}

/// Absolute value of an integer.
pub open spec fn abs(v: int) -> int {
    if v < 0 {
        -v
    } else {
        v
    }
}

/// Manhattan distance between two cells.
pub open spec fn manhattan(a: Pos, b: Pos) -> int {
    abs(a.0 - b.0) + abs(a.1 - b.1)
}

/// `b` is the cell left of, right of, above or below `a`.
pub open spec fn adjacent(a: Pos, b: Pos) -> bool {
    (a.1 == b.1 && (b.0 == a.0 - 1 || b.0 == a.0 + 1))
        || (a.0 == b.0 && (b.1 == a.1 - 1 || b.1 == a.1 + 1))
}

/// The cell lies on the grid and its cost is not the impassable sentinel.
pub open spec fn enterable(costs: Seq<usize>, p: Pos) -> bool {
    in_bounds(p.0 as int, p.1 as int) && costs[cell_index(p.0 as int, p.1 as int)] < IMPASSABLE
}

/// One move of the grid graph: from an in-bounds cell to an adjacent cell
/// that can be entered.
pub open spec fn can_step(costs: Seq<usize>, a: Pos, b: Pos) -> bool {
    in_bounds(a.0 as int, a.1 as int) && adjacent(a, b) && enterable(costs, b)
}

/// The move to `(x, y)` with its weight, if that cell can be entered.
pub open spec fn candidate(costs: Seq<usize>, x: int, y: int) -> Seq<(Pos, usize)> {
    if in_bounds(x, y) && costs[cell_index(x, y)] < IMPASSABLE {
        seq![(Pos(x as i32, y as i32), costs[cell_index(x, y)])]
    } else {
        Seq::empty()
    }
}

/// The moves out of `p`, each with the cost of the cell it enters: left,
/// right, up, down, leaving out what is off the grid or impassable.
pub open spec fn spec_successors(costs: Seq<usize>, p: Pos) -> Seq<(Pos, usize)> {
    candidate(costs, p.0 - 1, p.1 as int) + candidate(costs, p.0 + 1, p.1 as int) + candidate(
        costs,
        p.0 as int,
        p.1 - 1,
    ) + candidate(costs, p.0 as int, p.1 + 1)
}

/// Distinct in-bounds cells have distinct indices, all below `map_len()`.
pub proof fn lemma_cell_index_injective(x1: int, y1: int, x2: int, y2: int)
    requires
        in_bounds(x1, y1),
        in_bounds(x2, y2),
    ensures
        0 <= cell_index(x1, y1) < map_len(),
        cell_index(x1, y1) == cell_index(x2, y2) <==> (x1 == x2 && y1 == y2),
{
}

/// The successors of an in-bounds cell are exactly the moves of the grid
/// graph out of it, each weighted with the cost of its destination.
pub proof fn lemma_successors_are_steps(costs: Seq<usize>, a: Pos)
    requires
        in_bounds(a.0 as int, a.1 as int),
    ensures
        forall|k: int|
            0 <= k < spec_successors(costs, a).len() ==> {
                let (b, w) = #[trigger] spec_successors(costs, a)[k];
                can_step(costs, a, b) && w == costs[cell_index(b.0 as int, b.1 as int)]
            },
        forall|b: Pos| #[trigger]
            can_step(costs, a, b) ==> spec_successors(costs, a).contains(
                (b, costs[cell_index(b.0 as int, b.1 as int)]),
            ),
{
    let s = spec_successors(costs, a);
    let l = candidate(costs, a.0 - 1, a.1 as int);
    let r = candidate(costs, a.0 + 1, a.1 as int);
    let u = candidate(costs, a.0 as int, a.1 - 1);
    let d = candidate(costs, a.0 as int, a.1 + 1);
    assert(s =~= l + r + u + d);
    assert forall|b: Pos| #[trigger] can_step(costs, a, b) implies s.contains(
        (b, costs[cell_index(b.0 as int, b.1 as int)]),
    ) by {
        let e = (b, costs[cell_index(b.0 as int, b.1 as int)]);
        if b.1 == a.1 && b.0 == a.0 - 1 {
            assert(l[0] == e);
            assert(s[0] == e);
        } else if b.1 == a.1 && b.0 == a.0 + 1 {
            assert(r[0] == e);
            assert(s[l.len() as int] == e);
        } else if b.0 == a.0 && b.1 == a.1 - 1 {
            assert(u[0] == e);
            assert(s[(l.len() + r.len()) as int] == e);
        } else {
            assert(d[0] == e);
            assert(s[(l.len() + r.len() + u.len()) as int] == e);
        }
    }
}

/// Number of cells of the grid.
pub fn mapsize() -> (n: usize)
    ensures
        n as int == map_len(),
{
    (MAPSIZE_MAX_X * MAPSIZE_MAX_Y) as usize
}

/// Index of cell `(x, y)` in the flat stores.
pub fn getmapvecidx(x: i32, y: i32) -> (idx: usize)
    requires
        i32::MIN <= MAPSIZE_MAX_X as int * y <= i32::MAX,
        0 <= cell_index(x as int, y as int) <= i32::MAX,
    ensures
        idx as int == cell_index(x as int, y as int),
        in_bounds(x as int, y as int) ==> (idx as int) < map_len(),
{
    (x + (MAPSIZE_MAX_X * y)) as usize
}

/// `pathfinding::utils::absdiff` on `i32`: the larger argument minus the
/// smaller. The subtraction is made in `i32`, so the difference has to fit.
#[verifier::external_body]
fn absdiff_i32(x: i32, y: i32) -> (d: i32)
    requires
        abs(x - y) <= i32::MAX,
    ensures
        d as int == abs(x - y),
{
    absdiff(x, y)
}

impl Pos {
    /// Manhattan distance to `other`.
    pub fn distance(&self, other: &Pos) -> (d: usize)
        requires
            manhattan(*self, *other) <= i32::MAX,
        ensures
            d as int == manhattan(*self, *other),
    {
        (absdiff_i32(self.0, other.0) + absdiff_i32(self.1, other.1)) as usize
    }

    /// The estimate that steers the route search: a third of the Manhattan
    /// distance to `to`, rounded down.
    pub fn heuristic(&self, to: &Pos) -> (h: u128)
        requires
            manhattan(*self, *to) <= i32::MAX,
        ensures
            h as int == manhattan(*self, *to) / 3,
    {
        (self.distance(to) / 3) as u128
    }

    /// Tells whether this is the cell `other`.
    pub fn same_cell(&self, other: &Pos) -> (same: bool)
        ensures
            same == (*self == *other),
    {
        self.0 == other.0 && self.1 == other.1
    }

    /// The moves out of this cell as the route search takes them: those of
    /// `successors`, in the same order, each weight widened so that the
    /// cost of a whole route can be summed up without overflow.
    pub fn edges(&self, costmap: &Vec<usize>) -> (ret: Vec<(Pos, u128)>)
        requires
            in_bounds(self.0 as int, self.1 as int),
            costmap.len() == map_len(),
        ensures
            ret@.len() == spec_successors(costmap@, *self).len(),
            forall|k: int|
                0 <= k < ret@.len() ==> #[trigger] ret@[k] == (
                    spec_successors(costmap@, *self)[k].0,
                    spec_successors(costmap@, *self)[k].1 as u128,
                ),
    {
        let moves: Vec<(Pos, usize)> = self.successors(costmap);
        let mut ret: Vec<(Pos, u128)> = Vec::new();
        let mut i: usize = 0;
        while i < moves.len()
            invariant
                0 <= i <= moves.len(),
                ret.len() == i,
                forall|k: int|
                    0 <= k < i ==> #[trigger] ret@[k] == (moves@[k].0, moves@[k].1 as u128),
            decreases moves.len() - i,
        {
            let (p, cost) = moves[i];
            ret.push((p, cost as u128));
            i = i + 1;
        }
        ret
    }

    /// The moves out of this cell over the cost field `costmap`.
    pub fn successors(&self, costmap: &Vec<usize>) -> (ret: Vec<(Pos, usize)>)
        requires
            in_bounds(self.0 as int, self.1 as int),
            costmap.len() == map_len(),
        ensures
            ret@ == spec_successors(costmap@, *self),
    {
        let x: i32 = self.0;
        let y: i32 = self.1;
        let mut ret: Vec<(Pos, usize)> = Vec::new();
        if x > 0 {
            let cost: usize = costmap[getmapvecidx(x - 1, y)];
            if cost < usize::MAX {
                ret.push((Pos(x - 1, y), cost));
            }
        }
        assert(ret@ =~= candidate(costmap@, x - 1, y as int));
        if x < (MAPSIZE_MAX_X - 1) {
            let cost: usize = costmap[getmapvecidx(x + 1, y)];
            if cost < usize::MAX {
                ret.push((Pos(x + 1, y), cost));
            }
        }
        assert(ret@ =~= candidate(costmap@, x - 1, y as int) + candidate(costmap@, x + 1, y as int));
        if y > 0 {
            let cost: usize = costmap[getmapvecidx(x, y - 1)];
            if cost < usize::MAX {
                ret.push((Pos(x, y - 1), cost));
            }
        }
        assert(ret@ =~= candidate(costmap@, x - 1, y as int) + candidate(costmap@, x + 1, y as int)
            + candidate(costmap@, x as int, y - 1));
        if y < (MAPSIZE_MAX_Y - 1) {
            let cost: usize = costmap[getmapvecidx(x, y + 1)];
            if cost < usize::MAX {
                ret.push((Pos(x, y + 1), cost));
            }
        }
        assert(ret@ =~= spec_successors(costmap@, *self));
        ret
    }
}

} // verus!
