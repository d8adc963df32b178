use tilegrid::actor::{Actor, ARRIVAL_TOLERANCE};
use tilegrid::entities::Entity;
use tilegrid::TILESIZE;

fn walk(actor: &mut Actor, speed: f32, delta_t: u32, max_ticks: usize) -> (f32, f32, usize) {
    let (px, py) = actor.position();
    let mut scrx = px as f32;
    let mut scry = py as f32;
    let mut ticks = 0;
    while actor.ismoving() && ticks < max_ticks {
        let (tx, ty) = actor.movetarget().unwrap();
        let dx = tx as f32 - scrx;
        let dy = ty as f32 - scry;
        let len = (dx * dx + dy * dy).sqrt();
        if len > 0.0 {
            scrx += dx / len * speed * delta_t as f32;
            scry += dy / len * speed * delta_t as f32;
        }
        actor.update(whole(scrx, tx), whole(scry, ty));
        ticks += 1;
    }
    (scrx, scry, ticks)
}

fn whole(scr: f32, dest: i64) -> i32 {
    if scr > dest as f32 {
        scr.ceil() as i32
    } else {
        scr.floor() as i32
    }
}

#[test]
fn new_actor_rests_on_its_cell() {
    let a = Actor::new(7, 3, 4);
    assert_eq!(a.getid(), 7);
    assert_eq!(a.position(), (3 * TILESIZE, 4 * TILESIZE));
    assert_eq!(a.getoccupiedtile(), (3, 4));
    assert!(!a.ismoving());
    assert!(a.pending().is_empty());
    assert_eq!(a.movetarget(), None);
}

#[test]
fn new_actor_far_away_is_held_to_the_pixel_range() {
    let a = Actor::new(1, i32::MAX, i32::MIN);
    assert_eq!(a.position(), (i32::MAX, i32::MIN));
    let b = Actor::new(1, i32::MAX / TILESIZE, i32::MIN / TILESIZE);
    assert_eq!(
        b.position(),
        (
            (i32::MAX / TILESIZE) * TILESIZE,
            (i32::MIN / TILESIZE) * TILESIZE
        )
    );
    let c = Actor::new(1, i32::MAX / TILESIZE + 1, i32::MIN / TILESIZE - 1);
    assert_eq!(c.position(), (i32::MAX, i32::MIN));
}

#[test]
fn occupied_tile_is_the_floor_of_the_position() {
    let mut a = Actor::new(1, 0, 0);
    a.setmovetarget(100, 100);
    a.update(31, 32);
    assert_eq!(a.getoccupiedtile(), (0, 1));
    a.update(-1, -32);
    assert_eq!(a.getoccupiedtile(), (-1, -1));
    a.update(-33, 63);
    assert_eq!(a.getoccupiedtile(), (-2, 1));
    a.update(i32::MIN, i32::MAX);
    assert_eq!(
        a.getoccupiedtile(),
        (i32::MIN / TILESIZE, i32::MAX / TILESIZE)
    );
}

#[test]
fn set_target_starts_the_movement() {
    let mut a = Actor::new(1, 0, 0);
    assert!(a.setmovetarget(1, 0));
    assert!(a.ismoving());
    assert_eq!(a.pending(), &vec![(1, 0)]);
    assert_eq!(a.movetarget(), Some((TILESIZE as i64, 0)));
}

#[test]
fn new_target_is_headed_for_next() {
    let mut a = Actor::new(1, 0, 0);
    a.setmovetarget(1, 0);
    assert_eq!(a.movetarget(), Some((32, 0)));
    a.setmovetarget(2, 0);
    assert_eq!(a.pending(), &vec![(1, 0), (2, 0)]);
    assert_eq!(a.movetarget(), Some((64, 0)));
    a.setmovetarget(2, 1);
    assert_eq!(a.pending(), &vec![(1, 0), (2, 0), (2, 1)]);
    assert_eq!(a.movetarget(), Some((64, 32)));
    assert_eq!(a.position(), (0, 0));
    assert_eq!(a.getid(), 1);
}

#[test]
fn older_targets_follow_in_their_order() {
    let mut a = Actor::new(1, 0, 0);
    a.setmovetarget(2, 1);
    a.setmovetarget(2, 0);
    a.setmovetarget(1, 0);
    assert_eq!(a.pending(), &vec![(2, 1), (2, 0), (1, 0)]);
    assert_eq!(a.movetarget(), Some((32, 0)));
    a.update(32, 0);
    assert_eq!(a.pending(), &vec![(2, 1), (2, 0)]);
    assert_eq!(a.movetarget(), Some((64, 0)));
    a.update(64, 1);
    assert_eq!(a.movetarget(), Some((64, 32)));
    assert!(a.ismoving());
    a.update(63, 33);
    assert!(!a.ismoving());
    assert!(a.pending().is_empty());
    assert_eq!(a.movetarget(), None);
    assert_eq!(a.position(), (63, 33));
}

#[test]
fn new_target_overrides_the_running_step() {
    let mut a = Actor::new(1, 0, 0);
    a.setmovetarget(5, 0);
    a.update(40, 0);
    assert_eq!(a.movetarget(), Some((160, 0)));
    a.setmovetarget(0, 3);
    assert_eq!(a.movetarget(), Some((0, 96)));
    a.update(1, 95);
    assert_eq!(a.pending(), &vec![(5, 0)]);
    assert_eq!(a.movetarget(), Some((160, 0)));
    assert!(a.ismoving());
}

#[test]
fn target_pixels_do_not_overflow() {
    let mut a = Actor::new(1, 0, 0);
    a.setmovetarget(i32::MAX, i32::MIN);
    assert_eq!(
        a.movetarget(),
        Some((i32::MAX as i64 * 32, i32::MIN as i64 * 32))
    );
    a.update(i32::MAX, i32::MIN);
    assert!(a.ismoving());
    assert_eq!(a.pending().len(), 1);
}

#[test]
fn arrival_needs_both_axes_within_tolerance() {
    assert_eq!(ARRIVAL_TOLERANCE, 2);
    for (x, y, done) in [
        (32, 64, true),
        (34, 66, true),
        (30, 62, true),
        (34, 62, true),
        (35, 64, false),
        (29, 64, false),
        (32, 67, false),
        (32, 61, false),
        (35, 67, false),
    ] {
        let mut a = Actor::new(1, 0, 0);
        a.setmovetarget(1, 2);
        a.update(x, y);
        assert_eq!(a.position(), (x, y));
        assert_eq!(a.ismoving(), !done);
        assert_eq!(a.pending().len(), if done { 0 } else { 1 });
    }
}

#[test]
fn actor_at_rest_ignores_ticks() {
    let mut a = Actor::new(1, 2, 2);
    a.update(5, 5);
    assert_eq!(a.position(), (64, 64));
    assert!(!a.ismoving());
    a.clearmovetarget();
    a.update(5, 5);
    assert_eq!(a.position(), (64, 64));
    assert_eq!(a.pending(), &vec![(2, 2)]);
}

#[test]
fn movestep_takes_position_and_pops_on_arrival() {
    let mut a = Actor::new(1, 0, 0);
    a.setmovetarget(4, 0);
    a.setmovetarget(3, 0);
    assert!(a.movestep(3, 0, 50, 0));
    assert_eq!(a.position(), (50, 0));
    assert_eq!(a.pending(), &vec![(4, 0), (3, 0)]);
    assert!(a.movestep(3, 0, 95, 1));
    assert_eq!(a.pending(), &vec![(4, 0)]);
    assert!(a.ismoving());
    assert!(a.movestep(4, 0, 128, 0));
    assert!(a.pending().is_empty());
    assert!(!a.ismoving());
    assert!(a.movestep(4, 0, 128, 0));
    assert!(a.pending().is_empty());
    assert!(!a.ismoving());
}

#[test]
fn clear_target_leaves_the_own_cell() {
    let mut a = Actor::new(1, 0, 0);
    a.setmovetarget(5, 5);
    a.setmovetarget(6, 5);
    a.update(40, 70);
    assert!(a.ismoving());
    a.clearmovetarget();
    assert!(!a.ismoving());
    assert_eq!(a.pending(), &vec![(1, 2)]);
    assert_eq!(a.pending(), &vec![a.getoccupiedtile()]);
    assert_eq!(a.position(), (40, 70));
    assert_eq!(a.movetarget(), None);
}

#[test]
fn clear_target_on_an_actor_at_rest() {
    let mut a = Actor::new(1, 3, 1);
    a.clearmovetarget();
    assert!(!a.ismoving());
    assert_eq!(a.pending(), &vec![(3, 1)]);
    a.clearmovetarget();
    assert_eq!(a.pending(), &vec![(3, 1)]);
}

#[test]
fn target_after_clear_goes_over_the_own_cell() {
    let mut a = Actor::new(1, 3, 1);
    a.clearmovetarget();
    a.setmovetarget(4, 1);
    assert!(a.ismoving());
    assert_eq!(a.pending(), &vec![(3, 1), (4, 1)]);
    assert_eq!(a.movetarget(), Some((128, 32)));
    a.update(127, 32);
    assert_eq!(a.pending(), &vec![(3, 1)]);
    assert!(a.ismoving());
    assert_eq!(a.movetarget(), Some((96, 32)));
}

#[test]
fn walk_to_the_next_cell() {
    let mut a = Actor::new(1, 0, 0);
    a.setmovetarget(1, 0);
    let (scrx, scry, ticks) = walk(&mut a, 0.5, 10, 1000);
    assert!(!a.ismoving());
    assert!((scrx - 32.0).abs() <= 2.0);
    assert_eq!(scry, 0.0);
    assert_eq!(ticks, 6);
    assert!(a.pending().is_empty());
}

#[test]
fn walk_gets_closer_every_tick() {
    let mut a = Actor::new(1, 0, 0);
    a.setmovetarget(3, 4);
    let (tx, ty) = a.movetarget().unwrap();
    let mut scrx = 0.0f32;
    let mut scry = 0.0f32;
    let mut last = f32::MAX;
    let mut ticks = 0;
    while a.ismoving() {
        let dx = tx as f32 - scrx;
        let dy = ty as f32 - scry;
        let len = (dx * dx + dy * dy).sqrt();
        assert!(len < last);
        last = len;
        scrx += dx / len * 0.5 * 3.0;
        scry += dy / len * 0.5 * 3.0;
        a.update(whole(scrx, tx), whole(scry, ty));
        ticks += 1;
        assert!(ticks < 1000);
    }
    assert!((scrx - 96.0).abs() <= 2.0);
    assert!((scry - 128.0).abs() <= 2.0);
}

#[test]
fn position_past_the_tolerance_has_not_arrived() {
    let mut a = Actor::new(1, 0, 0);
    a.setmovetarget(1, 0);
    a.update(whole(34.9, 32), whole(0.0, 0));
    assert!(a.ismoving());
    a.update(whole(29.1, 32), whole(0.0, 0));
    assert!(a.ismoving());
    a.update(whole(34.0, 32), whole(-2.0, 0));
    assert!(!a.ismoving());
}

#[test]
fn walk_along_a_route() {
    let mut a = Actor::new(1, 0, 0);
    for cell in [(2, 1), (2, 0), (1, 0), (0, 0)] {
        a.setmovetarget(cell.0, cell.1);
    }
    let (scrx, scry, _) = walk(&mut a, 0.5, 4, 10_000);
    assert!(!a.ismoving());
    assert!((scrx - 64.0).abs() <= 2.0);
    assert!((scry - 32.0).abs() <= 2.0);
    assert_eq!(a.getoccupiedtile().0, a.position().0.div_euclid(TILESIZE));
}

#[test]
fn actor_on_its_target_arrives_at_once() {
    let mut a = Actor::new(1, 2, 3);
    a.setmovetarget(2, 3);
    let (scrx, scry, ticks) = walk(&mut a, 0.5, 10, 1000);
    assert_eq!(ticks, 1);
    assert!(!a.ismoving());
    assert_eq!((scrx, scry), (64.0, 96.0));
}
