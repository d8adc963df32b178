//! Tiles, buildable occupants and actors, and the registry that owns them.

use vstd::prelude::*;
use crate::actor::{Actor, ActorView};

verus! {

/// What every placed thing exposes: its identity and the cell it occupies.
pub trait Entity {
    /// The identity, for contracts.
    spec fn spec_id(&self) -> u32;

    /// The occupied cell, for contracts.
    spec fn spec_occupiedtile(&self) -> (i32, i32);

    /// The cell that the entity occupies.
    fn getoccupiedtile(&self) -> (cell: (i32, i32))
        ensures
            cell == self.spec_occupiedtile(),
    ;

    /// The identity assigned at creation.
    fn getid(&self) -> (id: u32)
        ensures
            id == self.spec_id(),
    ;
}

/// A terrain tile: a fixed cell and the movement cost it contributes.
#[derive(Clone, Copy, Debug, PartialEq, Eq, Structural)]
pub struct Tile {
    id: u32,
    alt: u32,
    x: i32,
    y: i32,
}

impl Tile {
    /// A tile with identity `id` at cell `(x, y)` with movement cost `alt`.
    pub fn new(id: u32, x: i32, y: i32, alt: u32) -> (t: Tile)
        ensures
            t.spec_id() == id,
            t.spec_occupiedtile() == (x, y),
            t.spec_alt() == alt,
    {
        Tile { id, alt, x, y }
    }

    /// The cost value that the tile was made with, for contracts.
    pub closed spec fn spec_alt(&self) -> u32 {
        self.alt
    }

    /// The tile's own movement cost, for contracts.
    pub open spec fn spec_movecost(&self) -> usize {
        self.spec_alt() as usize
    }

    /// The cost value that the tile was made with.
    pub fn getalt(&self) -> (alt: u32)
        ensures
            alt == self.spec_alt(),
    {
        self.alt
    }

    /// The tile's own movement cost.
    pub fn getmovecost(&self) -> (cost: usize)
        ensures
            cost == self.spec_movecost(),
    {
        self.alt as usize
    }
}

impl Entity for Tile {
    closed spec fn spec_id(&self) -> u32 {
        self.id
    }

    closed spec fn spec_occupiedtile(&self) -> (i32, i32) {
        (self.x, self.y)
    }

    fn getoccupiedtile(&self) -> (cell: (i32, i32)) {
        (self.x, self.y)
    }

    fn getid(&self) -> (id: u32) {
        self.id
    }
}

/// A tile is its identity, its cell and its cost: two tiles that agree in
/// these are the same tile.
pub proof fn lemma_tile_is_its_parts(a: Tile, b: Tile)
    requires
        a.spec_id() == b.spec_id(),
        a.spec_occupiedtile() == b.spec_occupiedtile(),
        a.spec_alt() == b.spec_alt(),
    ensures
        a == b,
{
}

/// An occupant placed on top of a tile: an identity and the movement cost
/// that overlays the tile's own while it stands there.
#[derive(Clone, Copy, Debug, PartialEq, Eq, Structural)]
pub struct Buildable {
    pub id: u32,
    pub cost: usize,
}

impl Buildable {
    /// An occupant with identity `id` and movement cost `cost`.
    pub fn new(id: u32, cost: usize) -> (b: Buildable)
        ensures
            b.id == id,
            b.cost == cost,
    {
        Buildable { id, cost }
    }

    /// The movement cost of the occupied cell.
    pub fn getmovecost(&self) -> (cost: usize)
        ensures
            cost == self.cost,
    {
        self.cost
    }

    /// The identity under which the registry knows the occupant.
    pub fn getentityid(&self) -> (id: u32)
        ensures
            id == self.id,
    {
        self.id
    }
}

/// Owns the tiles, the actors and the buildable occupants of a simulation.
pub struct Entities {
    tiles: Vec<Tile>,
    actors: Vec<Actor>,
    buildings: Vec<Buildable>,
}

/// The mathematical value of an [`Entities`] registry: its three collections
/// in insertion order.
pub struct EntitiesView {
    pub tiles: Seq<Tile>,
    pub actors: Seq<ActorView>,
    pub buildings: Seq<Buildable>,
}

/// The values of a sequence of actors.
pub open spec fn actor_views(actors: Seq<Actor>) -> Seq<ActorView> {
    Seq::new(actors.len(), |i: int| actors[i]@)
}

impl EntitiesView {
    /// The registry after one tick in which actor `i` reached
    /// `positions[i]`; an actor for which no position is given stays as it is.
    pub open spec fn update(self, positions: Seq<(i32, i32)>) -> EntitiesView {
        EntitiesView {
            actors: Seq::new(
                self.actors.len(),
                |i: int|
                    if i < positions.len() {
                        self.actors[i].update(positions[i].0, positions[i].1)
                    } else {
                        self.actors[i]
                    },
            ),
            ..self
        }
    }

    /// The registry without the occupants known under `id`.
    pub open spec fn remove_building(self, id: u32) -> EntitiesView {
        EntitiesView { buildings: self.buildings.filter(|b: Buildable| b.id != id), ..self }
    }

    /// The registry without the actors known under `id`.
    pub open spec fn remove_actor(self, id: u32) -> EntitiesView {
        EntitiesView { actors: self.actors.filter(|a: ActorView| a.id != id), ..self }
    }
}

/// Filtering a sequence with one more item at its end filters that item and
/// leaves the rest as it was.
pub proof fn lemma_filter_push<A>(s: Seq<A>, x: A, pred: spec_fn(A) -> bool)
    ensures
        s.push(x).filter(pred) == if pred(x) {
            s.filter(pred).push(x)
        } else {
            s.filter(pred)
        },
{
    reveal(Seq::filter);
    assert(s.push(x).drop_last() =~= s);
}

impl View for Entities {
    type V = EntitiesView;

    closed spec fn view(&self) -> EntitiesView {
        EntitiesView {
            tiles: self.tiles@,
            actors: actor_views(self.actors@),
            buildings: self.buildings@,
        }
    }
}

impl Entities {
    /// An empty registry.
    pub fn new() -> (e: Entities)
        ensures
            e@ == (EntitiesView {
                tiles: Seq::empty(),
                actors: Seq::empty(),
                buildings: Seq::empty(),
            }),
    {
        let e = Entities { tiles: Vec::new(), actors: Vec::new(), buildings: Vec::new() };
        assert(actor_views(e.actors@) =~= Seq::empty());
        e
    }

    /// Registers a tile.
    pub fn add_tile(&mut self, tile: Tile)
        ensures
            final(self)@ == (EntitiesView { tiles: old(self)@.tiles.push(tile), ..old(self)@ }),
    {
        self.tiles.push(tile);
    }

    /// Registers an actor.
    pub fn add_actor(&mut self, act: Actor)
        ensures
            final(self)@ == (EntitiesView { actors: old(self)@.actors.push(act@), ..old(self)@ }),
    {
        self.actors.push(act);
        assert(actor_views(self.actors@) =~= actor_views(old(self).actors@).push(act@));
    }

    /// Registers a buildable occupant.
    pub fn add_building(&mut self, building: Buildable)
        ensures
            final(self)@ == (EntitiesView {
                buildings: old(self)@.buildings.push(building),
                ..old(self)@
            }),
    {
        self.buildings.push(building);
    }

    /// Takes every occupant known under `id` out of the registry; the others
    /// keep their order.
    pub fn remove_building(&mut self, id: u32)
        ensures
            final(self)@ == old(self)@.remove_building(id),
    {
        let ghost keep = |b: Buildable| b.id != id;
        let ghost before = self.buildings@;
        let ghost mut seen: int = 0;
        let mut i: usize = 0;
        assert(before.subrange(0, 0).filter(keep) =~= self.buildings@.subrange(0, 0));
        while i < self.buildings.len()
            invariant
                self.tiles == old(self).tiles,
                self.actors == old(self).actors,
                before == old(self).buildings@,
                keep == |b: Buildable| b.id != id,
                0 <= i <= self.buildings.len(),
                0 <= seen <= before.len(),
                self.buildings.len() - i == before.len() - seen,
                self.buildings@.subrange(0, i as int) == before.subrange(0, seen).filter(keep),
                self.buildings@.subrange(i as int, self.buildings.len() as int) == before.subrange(
                    seen,
                    before.len() as int,
                ),
            decreases self.buildings.len() - i,
        {
            let ghost now = self.buildings@;
            assert(now[i as int] == now.subrange(i as int, now.len() as int)[0]);
            assert(now[i as int] == before[seen]);
            proof {
                assert(before.subrange(0, seen + 1) =~= before.subrange(0, seen).push(
                    before[seen],
                ));
                lemma_filter_push(before.subrange(0, seen), before[seen], keep);
            }
            if self.buildings[i].id == id {
                let _ = self.buildings.remove(i);
                assert(self.buildings@.subrange(0, i as int) =~= now.subrange(0, i as int));
                assert(self.buildings@.subrange(i as int, self.buildings.len() as int)
                    =~= now.subrange(i as int, now.len() as int).subrange(1, now.len() - i));
                assert(before.subrange(seen + 1, before.len() as int) =~= before.subrange(
                    seen,
                    before.len() as int,
                ).subrange(1, before.len() - seen));
            } else {
                assert(now.subrange(0, i + 1) =~= now.subrange(0, i as int).push(now[i as int]));
                assert(now.subrange(i + 1, now.len() as int) =~= now.subrange(
                    i as int,
                    now.len() as int,
                ).subrange(1, now.len() - i));
                assert(before.subrange(seen + 1, before.len() as int) =~= before.subrange(
                    seen,
                    before.len() as int,
                ).subrange(1, before.len() - seen));
                i = i + 1;
            }
            proof {
                seen = seen + 1;
            }
        }
        assert(self.buildings@ =~= self.buildings@.subrange(0, i as int));
        assert(before =~= before.subrange(0, seen));
    }

    /// Takes every actor known under `id` out of the registry; the others keep
    /// their order.
    pub fn remove_actor(&mut self, id: u32)
        ensures
            final(self)@ == old(self)@.remove_actor(id),
    {
        let ghost keep = |a: ActorView| a.id != id;
        let ghost before = self.actors@;
        let ghost mut seen: int = 0;
        let mut i: usize = 0;
        assert(actor_views(before.subrange(0, 0)).filter(keep) =~= actor_views(
            self.actors@.subrange(0, 0),
        ));
        while i < self.actors.len()
            invariant
                self.tiles == old(self).tiles,
                self.buildings == old(self).buildings,
                before == old(self).actors@,
                keep == |a: ActorView| a.id != id,
                0 <= i <= self.actors.len(),
                0 <= seen <= before.len(),
                self.actors.len() - i == before.len() - seen,
                actor_views(self.actors@.subrange(0, i as int)) == actor_views(
                    before.subrange(0, seen),
                ).filter(keep),
                self.actors@.subrange(i as int, self.actors.len() as int) == before.subrange(
                    seen,
                    before.len() as int,
                ),
            decreases self.actors.len() - i,
        {
            let ghost now = self.actors@;
            assert(now[i as int] == now.subrange(i as int, now.len() as int)[0]);
            assert(now[i as int] == before[seen]);
            proof {
                assert(actor_views(before.subrange(0, seen + 1)) =~= actor_views(
                    before.subrange(0, seen),
                ).push(before[seen]@));
                lemma_filter_push(actor_views(before.subrange(0, seen)), before[seen]@, keep);
            }
            if self.actors[i].getid() == id {
                let _ = self.actors.remove(i);
                assert(self.actors@.subrange(0, i as int) =~= now.subrange(0, i as int));
                assert(self.actors@.subrange(i as int, self.actors.len() as int) =~= now.subrange(
                    i as int,
                    now.len() as int,
                ).subrange(1, now.len() - i));
                assert(before.subrange(seen + 1, before.len() as int) =~= before.subrange(
                    seen,
                    before.len() as int,
                ).subrange(1, before.len() - seen));
            } else {
                assert(actor_views(now.subrange(0, i + 1)) =~= actor_views(
                    now.subrange(0, i as int),
                ).push(now[i as int]@));
                assert(now.subrange(i + 1, now.len() as int) =~= now.subrange(
                    i as int,
                    now.len() as int,
                ).subrange(1, now.len() - i));
                assert(before.subrange(seen + 1, before.len() as int) =~= before.subrange(
                    seen,
                    before.len() as int,
                ).subrange(1, before.len() - seen));
                i = i + 1;
            }
            proof {
                seen = seen + 1;
            }
        }
        assert(self.actors@ =~= self.actors@.subrange(0, i as int));
        assert(before =~= before.subrange(0, seen));
    }

    /// Index of the first actor known under `id`, if there is one.
    pub fn find_actor(&self, id: u32) -> (found: Option<usize>)
        ensures
            match found {
                Some(i) => i < self@.actors.len() && self@.actors[i as int].id == id && forall|
                    j: int,
                |
                    0 <= j < i ==> self@.actors[j].id != id,
                None => forall|j: int| 0 <= j < self@.actors.len() ==> self@.actors[j].id != id,
            },
    {
        let mut i: usize = 0;
        while i < self.actors.len()
            invariant
                0 <= i <= self.actors.len(),
                forall|j: int| 0 <= j < i ==> self@.actors[j].id != id,
            decreases self.actors.len() - i,
        {
            if self.actors[i].getid() == id {
                return Some(i);
            }
            i = i + 1;
        }
        None
    }

    /// The first actor known under `id`, if there is one. What the caller does
    /// to it is done to that actor of the registry.
    pub fn get_actor_by_id(&mut self, id: u32) -> (a: Option<&mut Actor>)
        ensures
            match a {
                Some(actor) => exists|i: int|
                    0 <= i < old(self)@.actors.len() && old(self)@.actors[i].id == id && (forall|
                        j: int,
                    |
                        0 <= j < i ==> old(self)@.actors[j].id != id) && actor@ == old(self)@.actors[i] && final(self)@ == (EntitiesView {
                        actors: old(self)@.actors.update(i, final(actor)@),
                        ..old(self)@
                    }),
                None => final(self)@ == old(self)@ && forall|j: int|
                    0 <= j < old(self)@.actors.len() ==> old(self)@.actors[j].id != id,
            },
    {
        match self.find_actor(id) {
            Some(i) => {
                let a = &mut self.actors[i];
                proof {
                    let after = old(self).actors@.update(i as int, *final(a));
                    assert(actor_views(after) =~= actor_views(old(self).actors@).update(
                        i as int,
                        final(a)@,
                    ));
                }
                Some(a)
            },
            None => None,
        }
    }

    /// The tiles, in insertion order.
    pub fn tiles(&self) -> (t: &Vec<Tile>)
        ensures
            t@ == self@.tiles,
    {
        &self.tiles
    }

    /// The actors, in insertion order.
    pub fn actors(&self) -> (a: &Vec<Actor>)
        ensures
            actor_views(a@) == self@.actors,
    {
        &self.actors
    }

    /// The buildable occupants, in insertion order.
    pub fn buildings(&self) -> (b: &Vec<Buildable>)
        ensures
            b@ == self@.buildings,
    {
        &self.buildings
    }

    /// The controllable actor: the first one registered, if there is any.
    /// What the caller does to it is done to the registry's first actor.
    pub fn get_actor(&mut self) -> (a: Option<&mut Actor>)
        ensures
            old(self)@.actors.len() == 0 ==> a is None && final(self)@ == old(self)@,
            old(self)@.actors.len() > 0 ==> a is Some && (a->0)@ == old(self)@.actors[0]
                && final(self)@ == (EntitiesView {
                actors: old(self)@.actors.update(0, final(a->0)@),
                ..old(self)@
            }),
    {
        if self.actors.len() == 0 {
            None
        } else {
            let a = &mut self.actors[0];
            proof {
                let after = old(self).actors@.update(0, *final(a));
                assert(actor_views(after) =~= actor_views(old(self).actors@).update(
                    0,
                    final(a)@,
                ));
            }
            Some(a)
        }
    }

    /// Advances every actor by one tick, in collection order: actor `i` has
    /// reached the whole-pixel position `positions[i]`.
    pub fn update(&mut self, positions: &Vec<(i32, i32)>)
        ensures
            final(self)@ == old(self)@.update(positions@),
    {
        let n: usize = self.actors.len();
        let mut i: usize = 0;
        while i < n && i < positions.len()
            invariant
                self.tiles == old(self).tiles,
                self.buildings == old(self).buildings,
                n == self.actors.len(),
                n == old(self).actors.len(),
                0 <= i <= n,
                i <= positions.len(),
                forall|k: int|
                    0 <= k < i ==> (#[trigger] self.actors[k])@ == old(self).actors[k]@.update(
                        positions[k].0,
                        positions[k].1,
                    ),
                forall|k: int| i <= k < n ==> #[trigger] self.actors[k] == old(self).actors[k],
            decreases n - i,
        {
            let (scrx, scry) = positions[i];
            self.actors[i].update(scrx, scry);
            i = i + 1;
        }
        assert(actor_views(self.actors@) =~= old(self)@.update(positions@).actors);
    }
}

} // verus!
