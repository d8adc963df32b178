//! The grid map: three parallel flat stores of tiles, buildable occupants
//! and current movement costs, behind bounds-checked accessors.

use vstd::prelude::*;
use crate::entities::{Buildable, Entities, EntitiesView, Tile};
use crate::error::MapError;
use crate::pos::{cell_index, getmapvecidx, in_bounds, map_len, mapsize};
use crate::{MAPSIZE_MAX_X, MAPSIZE_MAX_Y};

verus! {

/// The grid map. Cell `(x, y)` is held at index `x + MAPSIZE_MAX_X * y` of
/// each store.
pub struct GridMap {
    /// Each cell's tile with the cost it had when it was put there.
    pub tilemap: Vec<(Tile, u32)>,
    /// Each cell's occupant, if it has one.
    pub build_layer: Vec<Option<Buildable>>,
    /// Each cell's current movement cost, the one that the route search reads.
    pub costmap: Vec<usize>,
}

/// The mathematical value of a [`GridMap`].
pub struct GridMapView {
    pub tilemap: Seq<(Tile, u32)>,
    pub build_layer: Seq<Option<Buildable>>,
    pub costmap: Seq<usize>,
}

impl View for GridMap {
    type V = GridMapView;

    open spec fn view(&self) -> GridMapView {
        GridMapView {
            tilemap: self.tilemap@,
            build_layer: self.build_layer@,
            costmap: self.costmap@,
        }
    }
}

impl GridMapView {
    /// Each store holds one entry per cell.
    pub open spec fn wf(self) -> bool {
        &&& self.tilemap.len() == map_len()
        &&& self.build_layer.len() == map_len()
        &&& self.costmap.len() == map_len()
    }

    /// The cost that the cell at `idx` should have: its occupant's, or
    /// without an occupant its tile's own.
    pub open spec fn due_cost(self, idx: int) -> usize {
        match self.build_layer[idx] {
            Some(b) => b.cost,
            None => self.tilemap[idx].0.spec_movecost(),
        }
    }

    /// The cost field agrees with the overlay at every cell.
    pub open spec fn cost_consistent(self) -> bool {
        forall|idx: int| 0 <= idx < map_len() ==> #[trigger] self.costmap[idx] == self.due_cost(idx)
    }

    /// The map made of `tiles`: no occupant anywhere, every cost the tile's own.
    pub open spec fn of_tiles(tiles: Seq<Tile>) -> GridMapView {
        GridMapView {
            tilemap: Seq::new(tiles.len(), |i: int| (tiles[i], tiles[i].spec_alt())),
            build_layer: Seq::new(tiles.len(), |i: int| None),
            costmap: Seq::new(tiles.len(), |i: int| tiles[i].spec_movecost()),
        }
    }

    /// What `get_tile_at` gives.
    pub open spec fn get_tile_at(self, x: i32, y: i32) -> Result<(Tile, u32), MapError> {
        if in_bounds(x as int, y as int) {
            Ok(self.tilemap[cell_index(x as int, y as int)])
        } else {
            Err(MapError::OutOfBounds)
        }
    }

    /// The map after `set_tile_at`, or the error.
    pub open spec fn set_tile_at(self, x: i32, y: i32, t: Tile) -> Result<GridMapView, MapError> {
        if in_bounds(x as int, y as int) {
            Ok(
                GridMapView {
                    tilemap: self.tilemap.update(
                        cell_index(x as int, y as int),
                        (t, t.spec_alt()),
                    ),
                    ..self
                },
            )
        } else {
            Err(MapError::OutOfBounds)
        }
    }

    /// What `get_building_at` gives.
    pub open spec fn get_building_at(self, x: i32, y: i32) -> bool {
        in_bounds(x as int, y as int) && self.build_layer[cell_index(x as int, y as int)] is Some
    }

    /// The map after `set_building_at`, or the error.
    pub open spec fn set_building_at(self, x: i32, y: i32, w: Buildable) -> Result<
        GridMapView,
        MapError,
    > {
        if in_bounds(x as int, y as int) {
            Ok(
                GridMapView {
                    build_layer: self.build_layer.update(cell_index(x as int, y as int), Some(w)),
                    costmap: self.costmap.update(cell_index(x as int, y as int), w.cost),
                    ..self
                },
            )
        } else {
            Err(MapError::OutOfBounds)
        }
    }

    /// The map after `clear_building_at` with the occupant that left, or the
    /// error.
    pub open spec fn clear_building_at(self, x: i32, y: i32) -> Result<
        (GridMapView, Buildable),
        MapError,
    > {
        let idx = cell_index(x as int, y as int);
        if !in_bounds(x as int, y as int) {
            Err(MapError::OutOfBounds)
        } else {
            match self.build_layer[idx] {
                Some(w) => Ok(
                    (
                        GridMapView {
                            build_layer: self.build_layer.update(idx, None),
                            costmap: self.costmap.update(idx, self.tilemap[idx].0.spec_movecost()),
                            ..self
                        },
                        w,
                    ),
                ),
                None => Err(MapError::NoBuilding),
            }
        }
    }
}

impl GridMap {
    /// Assembles the map from one tile per cell, in row-major order. Nothing
    /// is built on it, and every cell costs what its tile costs. A sequence
    /// of any other length makes no map.
    pub fn new(tiles: Vec<Tile>) -> (made: Option<GridMap>)
        ensures
            made is Some <==> tiles.len() == map_len(),
            made matches Some(m) ==> m@ == GridMapView::of_tiles(tiles@) && m@.wf()
                && m@.cost_consistent(),
    {
        if tiles.len() != mapsize() {
            return None;
        }
        let mut tilemap: Vec<(Tile, u32)> = Vec::new();
        let mut build_layer: Vec<Option<Buildable>> = Vec::new();
        let mut costmap: Vec<usize> = Vec::new();
        let mut i: usize = 0;
        while i < tiles.len()
            invariant
                0 <= i <= tiles.len(),
                tilemap.len() == i,
                build_layer.len() == i,
                costmap.len() == i,
                forall|k: int|
                    0 <= k < i ==> #[trigger] tilemap[k] == (tiles[k], tiles[k].spec_alt()),
                forall|k: int| 0 <= k < i ==> #[trigger] build_layer[k] == None::<Buildable>,
                forall|k: int| 0 <= k < i ==> #[trigger] costmap[k] == tiles[k].spec_movecost(),
            decreases tiles.len() - i,
        {
            let t: Tile = tiles[i];
            tilemap.push((t, t.getalt()));
            build_layer.push(None);
            costmap.push(t.getmovecost());
            i = i + 1;
        }
        let m = GridMap { tilemap, build_layer, costmap };
        proof {
            let v = GridMapView::of_tiles(tiles@);
            assert(m@.tilemap =~= v.tilemap);
            assert(m@.build_layer =~= v.build_layer);
            assert(m@.costmap =~= v.costmap);
        }
        Some(m)
    }

    /// The bounds test of every accessor: tells whether `(x, y)` lies on the
    /// grid.
    pub fn check_bounds(x: i32, y: i32) -> (ok: bool)
        ensures
            ok == in_bounds(x as int, y as int),
    {
        if x < 0 || x >= MAPSIZE_MAX_X || y < 0 || y >= MAPSIZE_MAX_Y {
            return false;
        }
        true
    }

    /// The tile at `(x, y)` with its cost snapshot.
    pub fn get_tile_at(&self, x: i32, y: i32) -> (r: Result<&(Tile, u32), MapError>)
        requires
            self@.wf(),
        ensures
            match self@.get_tile_at(x, y) {
                Ok(pair) => r == Ok::<&(Tile, u32), MapError>(&pair),
                Err(e) => r == Err::<&(Tile, u32), MapError>(e),
            },
    {
        if !GridMap::check_bounds(x, y) {
            return Err(MapError::OutOfBounds);
        }
        Ok(&self.tilemap[getmapvecidx(x, y)])
    }

    /// Replaces the tile at `(x, y)` by `t`, paired with `t`'s cost. The
    /// occupants and the cost field stay as they are.
    pub fn set_tile_at(&mut self, x: i32, y: i32, t: Tile) -> (r: Result<(), MapError>)
        requires
            old(self)@.wf(),
        ensures
            match old(self)@.set_tile_at(x, y, t) {
                Ok(m) => r is Ok && final(self)@ == m,
                Err(e) => r == Err::<(), MapError>(e) && final(self)@ == old(self)@,
            },
            final(self)@.wf(),
    {
        if !GridMap::check_bounds(x, y) {
            return Err(MapError::OutOfBounds);
        }
        let idx: usize = getmapvecidx(x, y);
        self.tilemap[idx] = (t, t.getalt());
        Ok(())
    }

    /// Tells whether something is built at `(x, y)`. Off the grid nothing is.
    pub fn get_building_at(&mut self, x: i32, y: i32) -> (present: bool)
        requires
            old(self)@.wf(),
        ensures
            present == old(self)@.get_building_at(x, y),
            *final(self) == *old(self),
    {
        if !GridMap::check_bounds(x, y) {
            return false;
        }
        match self.build_layer[getmapvecidx(x, y)] {
            Some(_) => true,
            None => false,
        }
    }

    /// Builds `w` at `(x, y)`: the cell takes `w`'s cost, `w` becomes its
    /// occupant in place of any other, and the registry gets to know `w`.
    pub fn set_building_at(&mut self, x: i32, y: i32, w: Buildable, entities: &mut Entities) -> (r:
        Result<(), MapError>)
        requires
            old(self)@.wf(),
        ensures
            match old(self)@.set_building_at(x, y, w) {
                Ok(m) => r is Ok && final(self)@ == m && final(entities)@ == (EntitiesView {
                    buildings: old(entities)@.buildings.push(w),
                    ..old(entities)@
                }),
                Err(e) => r == Err::<(), MapError>(e) && final(self)@ == old(self)@ && final(entities)@ == old(entities)@,
            },
            final(self)@.wf(),
    {
        if !GridMap::check_bounds(x, y) {
            return Err(MapError::OutOfBounds);
        }
        let idx: usize = getmapvecidx(x, y);
        self.costmap[idx] = w.getmovecost();
        entities.add_building(w);
        self.build_layer[idx] = Some(w);
        Ok(())
    }

    /// Clears the occupant of `(x, y)`: the cell has none any more, the
    /// registry forgets whatever it knows under the occupant's identity, and
    /// the cell costs what its tile costs.
    pub fn clear_building_at(&mut self, x: i32, y: i32, entities: &mut Entities) -> (r: Result<
        (),
        MapError,
    >)
        requires
            old(self)@.wf(),
        ensures
            match old(self)@.clear_building_at(x, y) {
                Ok((m, w)) => r is Ok && final(self)@ == m && final(entities)@ == old(entities)@.remove_building(w.id),
                Err(e) => r == Err::<(), MapError>(e) && final(self)@ == old(self)@ && final(entities)@ == old(entities)@,
            },
            final(self)@.wf(),
    {
        if !GridMap::check_bounds(x, y) {
            return Err(MapError::OutOfBounds);
        }
        let idx: usize = getmapvecidx(x, y);
        match self.build_layer[idx] {
            Some(w) => {
                self.build_layer[idx] = None;
                entities.remove_building(w.getentityid());
                let cost: usize = self.tilemap[idx].0.getmovecost();
                self.costmap[idx] = cost;
                Ok(())
            },
            None => Err(MapError::NoBuilding),
        }
    }
}

/// A tile that was set is the tile that is got, paired with its cost.
pub proof fn lemma_get_tile_after_set(m: GridMapView, x: i32, y: i32, t: Tile)
    requires
        m.wf(),
        in_bounds(x as int, y as int),
    ensures
        m.set_tile_at(x, y, t) is Ok,
        m.set_tile_at(x, y, t)->Ok_0.wf(),
        m.set_tile_at(x, y, t)->Ok_0.get_tile_at(x, y) == Ok::<(Tile, u32), MapError>(
            (t, t.spec_alt()),
        ),
{
}

/// Setting a tile leaves every other cell's tile as it was.
pub proof fn lemma_set_tile_keeps_others(m: GridMapView, x: i32, y: i32, t: Tile, u: i32, v: i32)
    requires
        m.wf(),
        in_bounds(x as int, y as int),
        in_bounds(u as int, v as int),
        (u, v) != (x, y),
    ensures
        m.set_tile_at(x, y, t)->Ok_0.get_tile_at(u, v) == m.get_tile_at(u, v),
{
}

/// Off the grid every accessor but `get_building_at` gives the bounds error,
/// and `get_building_at` gives `false`.
pub proof fn lemma_out_of_bounds(m: GridMapView, x: i32, y: i32, t: Tile, w: Buildable)
    requires
        !in_bounds(x as int, y as int),
    ensures
        m.get_tile_at(x, y) == Err::<(Tile, u32), MapError>(MapError::OutOfBounds),
        m.set_tile_at(x, y, t) == Err::<GridMapView, MapError>(MapError::OutOfBounds),
        m.set_building_at(x, y, w) == Err::<GridMapView, MapError>(MapError::OutOfBounds),
        m.clear_building_at(x, y) == Err::<(GridMapView, Buildable), MapError>(
            MapError::OutOfBounds,
        ),
        !m.get_building_at(x, y),
{
}

/// A cell that was built on costs what its occupant costs; once the occupant
/// is cleared again, it costs what the tile stored at that cell costs.
pub proof fn lemma_building_cost(m: GridMapView, x: i32, y: i32, w: Buildable)
    requires
        m.wf(),
        in_bounds(x as int, y as int),
    ensures
        m.set_building_at(x, y, w) is Ok,
        ({
            let idx = cell_index(x as int, y as int);
            let built = m.set_building_at(x, y, w)->Ok_0;
            &&& built.wf()
            &&& built.get_building_at(x, y)
            &&& built.costmap[idx] == w.cost
            &&& built.clear_building_at(x, y) is Ok
            &&& built.clear_building_at(x, y)->Ok_0.1 == w
            &&& ({
                let cleared = built.clear_building_at(x, y)->Ok_0.0;
                &&& cleared.wf()
                &&& !cleared.get_building_at(x, y)
                &&& cleared.tilemap == m.tilemap
                &&& cleared.costmap[idx] == cleared.tilemap[idx].0.spec_movecost()
            })
        }),
{
}

/// Building and clearing keep the cost field in agreement with the overlay,
/// and so does setting a tile under an occupant or one that costs what the
/// cell costs already.
pub proof fn lemma_cost_consistency_kept(m: GridMapView, x: i32, y: i32, w: Buildable, t: Tile)
    requires
        m.wf(),
        m.cost_consistent(),
        in_bounds(x as int, y as int),
    ensures
        m.set_building_at(x, y, w)->Ok_0.cost_consistent(),
        m.get_building_at(x, y) ==> m.clear_building_at(x, y)->Ok_0.0.cost_consistent(),
        m.get_building_at(x, y) || t.spec_movecost() == m.costmap[cell_index(x as int, y as int)]
            ==> m.set_tile_at(x, y, t)->Ok_0.cost_consistent(),
{
    let idx = cell_index(x as int, y as int);
    let built = m.set_building_at(x, y, w)->Ok_0;
    assert forall|i: int| 0 <= i < map_len() implies #[trigger] built.costmap[i] == built.due_cost(
        i,
    ) by {
        assert(m.costmap[i] == m.due_cost(i));
    }
    if m.get_building_at(x, y) {
        let cleared = m.clear_building_at(x, y)->Ok_0.0;
        assert forall|i: int| 0 <= i < map_len() implies #[trigger] cleared.costmap[i]
            == cleared.due_cost(i) by {
            assert(m.costmap[i] == m.due_cost(i));
        }
    }
    if m.get_building_at(x, y) || t.spec_movecost() == m.costmap[idx] {
        let set = m.set_tile_at(x, y, t)->Ok_0;
        assert forall|i: int| 0 <= i < map_len() implies #[trigger] set.costmap[i] == set.due_cost(
            i,
        ) by {
            assert(m.costmap[i] == m.due_cost(i));
        }
    }
}

} // verus!
