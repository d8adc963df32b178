//! Route search over the cost field of the grid map.
//!
//! The grid graph has the cells as nodes and a move from every in-bounds cell
//! to each of its four neighbours that can be entered. The search itself is
//! the A* of the `pathfinding` crate; what it finds is held to the graph here.

use vstd::prelude::*;
use pathfinding::prelude::astar;
use crate::error::MapError;
use crate::grid::{GridMap, GridMapView};
use crate::pos::{
    adjacent,
    can_step,
    cell_index,
    enterable,
    in_bounds,
    lemma_successors_are_steps,
    map_len,
    spec_successors,
    Pos,
    IMPASSABLE,
};

verus! {

/// `route` leads over the cost field `costs` from `from` to `to`, both
/// included, one move of the grid graph at a time.
pub open spec fn is_route(costs: Seq<usize>, from: Pos, to: Pos, route: Seq<Pos>) -> bool {
    &&& route.len() > 0
    &&& route[0] == from
    &&& route.last() == to
    &&& in_bounds(from.0 as int, from.1 as int)
    &&& forall|i: int|
        0 <= i < route.len() - 1 ==> can_step(costs, #[trigger] route[i], route[i + 1])
}

/// Some route leads from `from` to `to`.
pub open spec fn reachable(costs: Seq<usize>, from: Pos, to: Pos) -> bool {
    exists|route: Seq<Pos>| is_route(costs, from, to, route)
}

/// The successors of `a` hold a move to `b`.
pub open spec fn yields(costs: Seq<usize>, a: Pos, b: Pos) -> bool {
    exists|k: int|
        0 <= k < spec_successors(costs, a).len() && (#[trigger] spec_successors(costs, a)[k]).0
            == b
}

/// `route` starts at `from`, ends at `to`, and each of its cells is among the
/// successors of the one before.
pub open spec fn is_chain(costs: Seq<usize>, from: Pos, to: Pos, route: Seq<Pos>) -> bool {
    &&& route.len() > 0
    &&& route[0] == from
    &&& route.last() == to
    &&& forall|i: int| 0 <= i < route.len() - 1 ==> yields(costs, #[trigger] route[i], route[i + 1])
}

/// Some chain of successors leads from `from` to `to`.
pub open spec fn linked(costs: Seq<usize>, from: Pos, to: Pos) -> bool {
    exists|route: Seq<Pos>| is_chain(costs, from, to, route)
}

/// Every in-bounds neighbour of `to` is impassable.
pub open spec fn enclosed(costs: Seq<usize>, to: Pos) -> bool {
    forall|n: Pos|
        #[trigger] adjacent(n, to) && in_bounds(n.0 as int, n.1 as int) ==> costs[cell_index(
            n.0 as int,
            n.1 as int,
        )] == IMPASSABLE
}

/// The route that the A* search returns on the cost field `costs` from
/// `from` to `to`, with the moves of `Pos::edges`, the estimate of
/// `Pos::heuristic` and `to` as its goal.
pub uninterp spec fn astar_route(costs: Seq<usize>, from: Pos, to: Pos) -> Option<Seq<Pos>>;

/// What `getpath` gives on the cost field `costs`.
pub open spec fn spec_getpath(costs: Seq<usize>, from: Pos, to: Pos) -> Result<
    Seq<Pos>,
    MapError,
> {
    if in_bounds(from.0 as int, from.1 as int) && in_bounds(to.0 as int, to.1 as int) {
        match astar_route(costs, from, to) {
            Some(route) => Ok(route),
            None => Err(MapError::NoPath),
        }
    } else {
        Err(MapError::NoPath)
    }
}

/// The cells of a search result.
pub open spec fn route_view(r: Result<Vec<Pos>, MapError>) -> Result<Seq<Pos>, MapError> {
    match r {
        Ok(route) => Ok(route@),
        Err(e) => Err(e),
    }
}

/// What holds of one search on the map `pre` that left the map `post` and
/// gave `r`: the map is as it was; the result is the one that belongs to the
/// cost field and the two cells; it is a route of the grid graph that visits
/// no cell twice; and it is the "no path" error exactly when there is no
/// route.
pub open spec fn search_outcome(
    pre: GridMapView,
    from: Pos,
    to: Pos,
    post: GridMapView,
    r: Result<Seq<Pos>, MapError>,
) -> bool {
    &&& post == pre
    &&& r == spec_getpath(pre.costmap, from, to)
    &&& r is Ok <==> reachable(pre.costmap, from, to)
    &&& r matches Ok(route) ==> is_route(pre.costmap, from, to, route) && route.no_duplicates()
    &&& r matches Err(e) ==> e == MapError::NoPath
}

/// `pathfinding::directed::astar::astar` from `from`, with `Pos::edges` over
/// `costmap` as successors, `Pos::heuristic` towards `to` as heuristic and
/// "is `to`" as success; the total cost that comes with a path is dropped.
///
/// Claimed of it: what it returns is a function of the cost field and the two
/// cells; a path that it returns starts at `from`, ends at `to`, holds after
/// each node one that the successors gave for it, and holds no node twice;
/// and it returns `None` only if no such chain leads from `from` to `to`. It
/// asks for the successors of `from` and of nodes that successors gave,
/// which are on the grid, and it sums at most one weight per cell, which a
/// `u128` holds.
#[verifier::external_body]
fn astar_search(costmap: &Vec<usize>, from: &Pos, to: &Pos) -> (found: Option<Vec<Pos>>)
    requires
        costmap.len() == map_len(),
        in_bounds(from.0 as int, from.1 as int),
        in_bounds(to.0 as int, to.1 as int),
    ensures
        found matches Some(route) ==> astar_route(costmap@, *from, *to) == Some(route@)
            && is_chain(costmap@, *from, *to, route@) && route@.no_duplicates(),
        found is None ==> astar_route(costmap@, *from, *to) is None && !linked(
            costmap@,
            *from,
            *to,
        ),
{
    astar(from, |p| p.edges(costmap), |p| p.heuristic(to), |p| p.same_cell(to)).map(|found| found.0)
}

/// Turns what the search found into the result of `getpath`: the route, or
/// the "no path" error where the search found none.
pub fn route_result(found: Option<Vec<Pos>>) -> (r: Result<Vec<Pos>, MapError>)
    ensures
        match found {
            Some(route) => r == Ok::<Vec<Pos>, MapError>(route),
            None => r == Err::<Vec<Pos>, MapError>(MapError::NoPath),
        },
{
    match found {
        Some(route) => Ok(route),
        None => Err(MapError::NoPath),
    }
}

/// Out of a cell on the grid, the successors hold exactly the moves of the
/// grid graph.
pub proof fn lemma_yields_is_step(costs: Seq<usize>, a: Pos, b: Pos)
    requires
        in_bounds(a.0 as int, a.1 as int),
    ensures
        yields(costs, a, b) <==> can_step(costs, a, b),
{
    lemma_successors_are_steps(costs, a);
    let s = spec_successors(costs, a);
    if can_step(costs, a, b) {
        let e = (b, costs[cell_index(b.0 as int, b.1 as int)]);
        assert(s.contains(e));
        let k = choose|k: int| 0 <= k < s.len() && s[k] == e;
        assert(s[k].0 == b);
    }
}

/// A chain of successors that starts on the grid stays on it.
pub proof fn lemma_chain_stays_on_grid(
    costs: Seq<usize>,
    from: Pos,
    to: Pos,
    route: Seq<Pos>,
    i: int,
)
    requires
        is_chain(costs, from, to, route),
        in_bounds(from.0 as int, from.1 as int),
        0 <= i < route.len(),
    ensures
        in_bounds(route[i].0 as int, route[i].1 as int),
    decreases i,
{
    if i > 0 {
        lemma_chain_stays_on_grid(costs, from, to, route, i - 1);
        assert(yields(costs, route[i - 1], route[i - 1 + 1]));
        lemma_yields_is_step(costs, route[i - 1], route[i]);
    }
}

/// From a cell on the grid, the chains of successors are the routes of the
/// grid graph.
pub proof fn lemma_chain_is_route(costs: Seq<usize>, from: Pos, to: Pos, route: Seq<Pos>)
    requires
        in_bounds(from.0 as int, from.1 as int),
    ensures
        is_chain(costs, from, to, route) <==> is_route(costs, from, to, route),
{
    if is_chain(costs, from, to, route) {
        assert forall|i: int| 0 <= i < route.len() - 1 implies can_step(
            costs,
            #[trigger] route[i],
            route[i + 1],
        ) by {
            lemma_chain_stays_on_grid(costs, from, to, route, i);
            lemma_yields_is_step(costs, route[i], route[i + 1]);
        }
    }
    if is_route(costs, from, to, route) {
        assert forall|i: int| 0 <= i < route.len() - 1 implies yields(
            costs,
            #[trigger] route[i],
            route[i + 1],
        ) by {
            lemma_yields_is_step(costs, route[i], route[i + 1]);
        }
    }
}

/// No route starts or ends off the grid.
pub proof fn lemma_route_stays_on_grid(costs: Seq<usize>, from: Pos, to: Pos, route: Seq<Pos>)
    requires
        is_route(costs, from, to, route),
    ensures
        forall|i: int|
            0 <= i < route.len() ==> in_bounds((#[trigger] route[i]).0 as int, route[i].1 as int),
{
    assert forall|i: int| 0 <= i < route.len() implies in_bounds(
        (#[trigger] route[i]).0 as int,
        route[i].1 as int,
    ) by {
        if i > 0 {
            assert(can_step(costs, route[i - 1], route[i - 1 + 1]));
        }
    }
}

impl GridMap {
    /// Searches a route from `from` to `to` over the current cost field. The
    /// map is only read.
    pub fn getpath(&mut self, from: Pos, to: Pos) -> (r: Result<Vec<Pos>, MapError>)
        requires
            old(self)@.wf(),
        ensures
            search_outcome(old(self)@, from, to, final(self)@, route_view(r)),
            *final(self) == *old(self),
    {
        if !GridMap::check_bounds(from.0, from.1) || !GridMap::check_bounds(to.0, to.1) {
            proof {
                assert forall|route: Seq<Pos>| !is_route(self@.costmap, from, to, route) by {
                    if is_route(self@.costmap, from, to, route) {
                        lemma_route_stays_on_grid(self@.costmap, from, to, route);
                        assert(route[route.len() - 1] == to);
                    }
                }
            }
            return Err(MapError::NoPath);
        }
        let found = astar_search(&self.costmap, &from, &to);
        proof {
            let costs = self@.costmap;
            if found is Some {
                lemma_chain_is_route(costs, from, to, found->0@);
            } else {
                assert forall|route: Seq<Pos>| !is_route(costs, from, to, route) by {
                    lemma_chain_is_route(costs, from, to, route);
                }
            }
        }
        route_result(found)
    }
}

/// Two searches between the same two cells with nothing done to the map in
/// between give the same result, and leave the map as the first found it.
pub proof fn lemma_search_repeatable(
    m0: GridMapView,
    m1: GridMapView,
    m2: GridMapView,
    from: Pos,
    to: Pos,
    r1: Result<Seq<Pos>, MapError>,
    r2: Result<Seq<Pos>, MapError>,
)
    requires
        search_outcome(m0, from, to, m1, r1),
        search_outcome(m1, from, to, m2, r2),
    ensures
        r1 == r2,
        m2 == m0,
{
}

/// A route that a search gives enters no impassable cell: every cell after
/// the first can be entered, and the first too unless the search started on
/// an impassable cell.
pub proof fn lemma_route_avoids_impassable(
    pre: GridMapView,
    from: Pos,
    to: Pos,
    post: GridMapView,
    route: Seq<Pos>,
)
    requires
        search_outcome(pre, from, to, post, Ok(route)),
    ensures
        forall|i: int| 1 <= i < route.len() ==> enterable(pre.costmap, #[trigger] route[i]),
        enterable(pre.costmap, from) ==> forall|i: int|
            0 <= i < route.len() ==> enterable(pre.costmap, #[trigger] route[i]),
{
    assert forall|i: int| 1 <= i < route.len() implies enterable(
        pre.costmap,
        #[trigger] route[i],
    ) by {
        assert(can_step(pre.costmap, route[i - 1], route[i - 1 + 1]));
    }
}

/// A route that a search gives visits no cell twice.
pub proof fn lemma_route_visits_once(
    pre: GridMapView,
    from: Pos,
    to: Pos,
    post: GridMapView,
    route: Seq<Pos>,
)
    requires
        search_outcome(pre, from, to, post, Ok(route)),
    ensures
        forall|i: int, j: int| 0 <= i < j < route.len() ==> route[i] != route[j],
{
}

/// A search for a target whose in-bounds neighbours are all impassable gives
/// the "no path" error, unless it starts on the target or on a neighbour
/// from which the target can be entered in one move.
pub proof fn lemma_enclosed_target_has_no_path(
    pre: GridMapView,
    from: Pos,
    to: Pos,
    post: GridMapView,
    r: Result<Seq<Pos>, MapError>,
)
    requires
        search_outcome(pre, from, to, post, r),
        enclosed(pre.costmap, to),
        from != to,
        !can_step(pre.costmap, from, to),
    ensures
        r == Err::<Seq<Pos>, MapError>(MapError::NoPath),
{
    let costs = pre.costmap;
    assert forall|route: Seq<Pos>| !is_route(costs, from, to, route) by {
        if is_route(costs, from, to, route) {
            let n = route.len() as int;
            assert(n >= 2);
            let c = route[n - 2];
            assert(can_step(costs, route[n - 2], route[n - 2 + 1]));
            assert(adjacent(c, to));
            assert(costs[cell_index(c.0 as int, c.1 as int)] == IMPASSABLE);
            if n == 2 {
                assert(c == from);
            } else {
                assert(can_step(costs, route[n - 3], route[n - 3 + 1]));
            }
        }
    }
}

} // verus!
