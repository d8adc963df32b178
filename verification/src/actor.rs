//! Actors and their movement state machine.
//!
//! An actor keeps its whole-pixel screen position and a stack of pending
//! destination cells, the next one on top. Each tick the driver reads the
//! current target with [`Actor::movetarget`], advances the continuous position
//! towards it at the actor's speed, and hands the new position, rounded to
//! whole pixels away from the target, to [`Actor::update`], which decides
//! whether the step is complete.

use vstd::prelude::*;
use crate::TILESIZE;
use crate::entities::Entity;
use crate::pos::abs;

verus! {

/// Pixels by which either axis may miss the target for a step to count as done.
pub const ARRIVAL_TOLERANCE: i32 = 2;

/// A movable entity.
pub struct Actor {
    id: u32,
    scrx: i32,
    scry: i32,
    moving: bool,
    steps: Vec<(i32, i32)>,
}

/// The mathematical value of an [`Actor`].
pub struct ActorView {
    pub id: u32,
    pub scrx: i32,
    pub scry: i32,
    pub moving: bool,
    pub steps: Seq<(i32, i32)>,
}

/// The value nearest to `v` that an `i32` can hold.
pub open spec fn clamp_i32(v: int) -> i32 {
    if v < i32::MIN {
        i32::MIN
    } else if v > i32::MAX {
        i32::MAX
    } else {
        v as i32
    }
}

/// Screen coordinate of the origin of grid line `c`.
pub open spec fn pixel_of(c: i32) -> int {
    c as int * TILESIZE as int
}

/// Both axes of the position are within the tolerance of the origin of cell
/// `(x, y)`.
pub open spec fn arrived(scrx: i32, scry: i32, x: i32, y: i32) -> bool {
    abs(scrx - pixel_of(x)) <= ARRIVAL_TOLERANCE as int && abs(scry - pixel_of(y))
        <= ARRIVAL_TOLERANCE as int
}

impl ActorView {
    /// A moving actor has a pending step.
    pub open spec fn wf(self) -> bool {
        self.moving ==> self.steps.len() > 0
    }

    /// The cell under the screen position.
    pub open spec fn occupiedtile(self) -> (i32, i32) {
        ((self.scrx as int / TILESIZE as int) as i32, (self.scry as int / TILESIZE as int) as i32)
    }

    /// The pixel target of the step on top of the stack, while moving.
    pub open spec fn movetarget(self) -> Option<(i64, i64)> {
        if self.moving && self.steps.len() > 0 {
            Some((pixel_of(self.steps.last().0) as i64, pixel_of(self.steps.last().1) as i64))
        } else {
            None
        }
    }

    /// The actor after `(x, y)` went on top of the pending steps.
    pub open spec fn setmovetarget(self, x: i32, y: i32) -> ActorView {
        ActorView { moving: true, steps: self.steps.push((x, y)), ..self }
    }

    /// The actor at rest, its own cell the only step left.
    pub open spec fn clearmovetarget(self) -> ActorView {
        ActorView { moving: false, steps: seq![self.occupiedtile()], ..self }
    }

    /// The actor after it moved to `(scrx, scry)` on its way to cell `(x, y)`.
    pub open spec fn movestep(self, x: i32, y: i32, scrx: i32, scry: i32) -> ActorView {
        if arrived(scrx, scry, x, y) {
            let rest = if self.steps.len() > 0 {
                self.steps.drop_last()
            } else {
                self.steps
            };
            ActorView { scrx, scry, moving: self.moving && rest.len() > 0, steps: rest, ..self }
        } else {
            ActorView { scrx, scry, ..self }
        }
    }

    /// The actor after one tick that took it to `(scrx, scry)`.
    pub open spec fn update(self, scrx: i32, scry: i32) -> ActorView {
        if self.moving && self.steps.len() > 0 {
            self.movestep(self.steps.last().0, self.steps.last().1, scrx, scry)
        } else {
            ActorView { moving: false, ..self }
        }
    }
}

impl View for Actor {
    type V = ActorView;

    closed spec fn view(&self) -> ActorView {
        ActorView {
            id: self.id,
            scrx: self.scrx,
            scry: self.scry,
            moving: self.moving,
            steps: self.steps@,
        }
    }
}

/// Screen coordinate of the origin of grid line `c`.
fn pixel(c: i32) -> (p: i64)
    ensures
        p as int == pixel_of(c),
        i32::MIN as int * TILESIZE as int <= p as int <= i32::MAX as int * TILESIZE as int,
{
    assert(i32::MIN as int * TILESIZE as int <= c as int * TILESIZE as int <= i32::MAX as int
        * TILESIZE as int) by (nonlinear_arith)
        requires
            i32::MIN <= c <= i32::MAX,
            TILESIZE > 0,
    ;
    (c as i64) * (TILESIZE as i64)
}

/// `c * TILESIZE`, held to the range of `i32`.
fn pixel_clamped(c: i32) -> (p: i32)
    ensures
        p == clamp_i32(pixel_of(c)),
{
    if c > i32::MAX / TILESIZE {
        i32::MAX
    } else if c < i32::MIN / TILESIZE {
        i32::MIN
    } else {
        c * TILESIZE
    }
}

/// The grid line at or before screen coordinate `scr`.
fn tile_of(scr: i32) -> (c: i32)
    ensures
        c as int == scr as int / TILESIZE as int,
{
    if scr >= 0 {
        scr / TILESIZE
    } else {
        let up: i32 = (-(scr + 1)) / TILESIZE;
        -up - 1
    }
}

/// Tells whether `scr` is within the tolerance of the origin of grid line `c`.
fn close_to(scr: i32, c: i32) -> (b: bool)
    ensures
        b == (abs(scr - pixel_of(c)) <= ARRIVAL_TOLERANCE as int),
{
    let dest: i64 = pixel(c);
    let diff: i64 = scr as i64 - dest;
    -(ARRIVAL_TOLERANCE as i64) <= diff && diff <= ARRIVAL_TOLERANCE as i64
}

impl Actor {
    /// An actor at rest on the origin of cell `(x, y)`, with no pending step.
    /// A pixel coordinate that an `i32` cannot hold is set to the nearest
    /// one that it can.
    pub fn new(id: u32, x: i32, y: i32) -> (a: Actor)
        ensures
            a@ == (ActorView {
                id,
                scrx: clamp_i32(pixel_of(x)),
                scry: clamp_i32(pixel_of(y)),
                moving: false,
                steps: Seq::empty(),
            }),
    {
        Actor {
            id,
            scrx: pixel_clamped(x),
            scry: pixel_clamped(y),
            moving: false,
            steps: Vec::new(),
        }
    }

    /// The whole-pixel screen position.
    pub fn position(&self) -> (p: (i32, i32))
        ensures
            p == (self@.scrx, self@.scry),
    {
        (self.scrx, self.scry)
    }

    /// Tells whether the actor is on its way.
    pub fn ismoving(&self) -> (m: bool)
        ensures
            m == self@.moving,
    {
        self.moving
    }

    /// The pending steps, the next one last.
    pub fn pending(&self) -> (s: &Vec<(i32, i32)>)
        ensures
            s@ == self@.steps,
    {
        &self.steps
    }

    /// The pixel that the actor is heading for: the origin of the cell on top
    /// of the pending steps while it is moving, nothing while it is at rest.
    pub fn movetarget(&self) -> (t: Option<(i64, i64)>)
        ensures
            t == self@.movetarget(),
    {
        let n: usize = self.steps.len();
        if self.moving && n > 0 {
            let (x, y) = self.steps[n - 1];
            Some((pixel(x), pixel(y)))
        } else {
            None
        }
    }

    /// One tick: a moving actor that reached `(scrx, scry)` takes that
    /// position and completes its current step if it is close enough; an
    /// actor at rest stays as it is.
    pub fn update(&mut self, scrx: i32, scry: i32)
        ensures
            final(self)@ == old(self)@.update(scrx, scry),
            final(self)@.wf(),
    {
        if self.moving {
            let n: usize = self.steps.len();
            if n > 0 {
                let (x, y) = self.steps[n - 1];
                self.movestep(x, y, scrx, scry);
            } else {
                self.moving = false;
            }
        }
    }

    /// Takes the position `(scrx, scry)` reached on the way to cell `(x, y)`.
    /// Within the tolerance of that cell's origin on both axes the step on
    /// top of the stack is complete: it is taken off, and with none left the
    /// actor comes to rest.
    pub fn movestep(&mut self, x: i32, y: i32, scrx: i32, scry: i32) -> (done: bool)
        ensures
            done,
            final(self)@ == old(self)@.movestep(x, y, scrx, scry),
            old(self)@.wf() ==> final(self)@.wf(),
    {
        self.scrx = scrx;
        self.scry = scry;
        if close_to(scrx, x) && close_to(scry, y) {
            if self.steps.len() <= 1 {
                self.moving = false;
            }
            let _ = self.steps.pop();
            assert(self.steps@ =~= old(self)@.movestep(x, y, scrx, scry).steps);
        }
        true
    }

    /// Puts cell `(x, y)` on top of the pending steps and sets the actor
    /// moving: the next tick heads for `(x, y)`, and the steps that were
    /// pending wait beneath it in their order.
    pub fn setmovetarget(&mut self, x: i32, y: i32) -> (accepted: bool)
        ensures
            accepted,
            final(self)@ == old(self)@.setmovetarget(x, y),
            final(self)@.movetarget() == Some((pixel_of(x) as i64, pixel_of(y) as i64)),
            final(self)@.wf(),
    {
        self.steps.push((x, y));
        self.moving = true;
        true
    }

    /// Cancels the movement: the actor comes to rest and its own cell is the
    /// only step left.
    pub fn clearmovetarget(&mut self)
        ensures
            final(self)@ == old(self)@.clearmovetarget(),
            final(self)@.wf(),
    {
        let cell = self.getoccupiedtile();
        self.moving = false;
        self.steps.clear();
        self.steps.push(cell);
        assert(self.steps@ =~= seq![cell]);
    }
}

impl Entity for Actor {
    open spec fn spec_id(&self) -> u32 {
        self@.id
    }

    open spec fn spec_occupiedtile(&self) -> (i32, i32) {
        self@.occupiedtile()
    }

    fn getoccupiedtile(&self) -> (cell: (i32, i32)) {
        (tile_of(self.scrx), tile_of(self.scry))
    }

    fn getid(&self) -> (id: u32) {
        self.id
    }
}

/// Cancelling the movement of any actor, at rest or moving, leaves an actor
/// at rest whose only pending step is the cell that it occupies.
pub proof fn lemma_clear_comes_to_rest(a: ActorView)
    ensures
        !a.clearmovetarget().moving,
        a.clearmovetarget().steps == seq![a.clearmovetarget().occupiedtile()],
        a.clearmovetarget().occupiedtile() == a.occupiedtile(),
        a.clearmovetarget().wf(),
{
}

/// A new target is the step that the next tick heads for; the steps that
/// were pending come after it, in the order they had, and the position and
/// the identity stay.
pub proof fn lemma_new_target_is_next(a: ActorView, x: i32, y: i32)
    ensures
        a.setmovetarget(x, y).moving,
        a.setmovetarget(x, y).steps.len() == a.steps.len() + 1,
        a.setmovetarget(x, y).steps.last() == (x, y),
        a.setmovetarget(x, y).steps.drop_last() == a.steps,
        a.setmovetarget(x, y).movetarget() == Some((pixel_of(x) as i64, pixel_of(y) as i64)),
        a.setmovetarget(x, y).id == a.id,
        a.setmovetarget(x, y).scrx == a.scrx,
        a.setmovetarget(x, y).scry == a.scry,
{
    assert(a.setmovetarget(x, y).steps.drop_last() =~= a.steps);
}

/// A moving actor has a pending step, whatever is done to it; a tick that
/// takes its last step off leaves it at rest.
pub proof fn lemma_moving_has_step(a: ActorView, x: i32, y: i32, scrx: i32, scry: i32)
    ensures
        a.setmovetarget(x, y).wf(),
        a.update(scrx, scry).wf(),
        a.wf() ==> a.movestep(x, y, scrx, scry).wf(),
        a.update(scrx, scry).steps.len() == 0 ==> !a.update(scrx, scry).moving,
{
}

/// A moving actor that stands within the tolerance of its target completes
/// the step: the tick takes the step off and keeps the rest in order. On the
/// target itself it is within the tolerance.
pub proof fn lemma_step_done_on_arrival(a: ActorView, scrx: i32, scry: i32)
    requires
        a.moving,
        a.steps.len() > 0,
    ensures
        arrived(scrx, scry, a.steps.last().0, a.steps.last().1) ==> a.update(scrx, scry).steps
            == a.steps.drop_last(),
        !arrived(scrx, scry, a.steps.last().0, a.steps.last().1) ==> a.update(scrx, scry).steps
            == a.steps && a.update(scrx, scry).moving,
        scrx == pixel_of(a.steps.last().0) && scry == pixel_of(a.steps.last().1) ==> arrived(
            scrx,
            scry,
            a.steps.last().0,
            a.steps.last().1,
        ),
{
}

} // verus!
