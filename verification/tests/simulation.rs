//! The simulation systems: physics and collision response, carry mechanics,
//! stamina, the companion's patrol, hazards, exits and the camera.

use cary::math::{Vec2, Bounds};
use cary::components::{Physics, Pos, Collider, Horizontal, Vertical, STAMINA_MAX};
use cary::physics::{MoveState, resolve_step};
use cary::world::{World, WorldState, Camera};
use cary::input::Key;

/// A world whose two tracked entities are parked far away, so scenario
/// entities evolve undisturbed.
fn arena() -> World {
    let mut w = World::new();
    w.store.pos[0] = Some(Pos::from(Vec2(50_000_000, 50_000_000)));
    w.store.pos[1] = Some(Pos::from(Vec2(-50_000_000, 50_000_000)));
    w
}

fn spawn_solid_tile(w: &mut World, x: i64, y: i64) -> usize {
    let (p, s, c) = cary::components::make_tile_solid(x, y);
    let id = w.store.spawn();
    w.store.pos[id] = Some(p);
    w.store.sprite[id] = Some(s);
    w.store.collider[id] = Some(c);
    id
}

#[test]
fn resting_body_stays_put() {
    let mut w = arena();
    let id = w.store.spawn();
    w.store.pos[id] = Some(Pos::from(Vec2(5000, 5000)));
    w.store.physics[id] = Some(Physics {
        bounds: Bounds::around(Vec2(0, 0), Vec2(550, 550)),
        vel: Vec2(0, 0),
        gravity: false,
        collided: (Horizontal::Neither, Vertical::Neither),
    });
    // a neighboring obstacle changes nothing for a body that proposes no move
    spawn_solid_tile(&mut w, 5, 4);
    for _ in 0..20 {
        w.update_physics();
        let p = w.store.pos[id].unwrap();
        assert_eq!(p.curr, Vec2(5000, 5000));
        let ph = w.store.physics[id].unwrap();
        assert_eq!(ph.vel, Vec2(0, 0));
    }
}

#[test]
fn horizontal_block_zeroes_that_axis_only() {
    let swept = Bounds { min: Vec2(0, 0), max: Vec2(1000, 1000) };
    let obstacle = Bounds { min: Vec2(1500, 0), max: Vec2(2500, 1000) };
    let st = MoveState {
        movement: Vec2(1000, 0),
        vel: Vec2(2000, 300),
        collided: (Horizontal::Neither, Vertical::Neither),
    };
    let r = resolve_step(swept, obstacle, st);
    assert_eq!(r.movement, Vec2(0, 0));
    assert_eq!(r.vel, Vec2(0, 300));
    assert!(r.collided.0 == Horizontal::Right);
    assert!(r.collided.1 == Vertical::Neither);
    // the committed endpoint is clear of the obstacle
    assert!(!swept.translated(r.movement).overlapps(obstacle));
}

#[test]
fn vertical_block_applies_ground_friction() {
    let swept = Bounds { min: Vec2(0, 0), max: Vec2(1000, 1000) };
    let obstacle = Bounds { min: Vec2(0, -1500), max: Vec2(1000, -500) };
    let st = MoveState {
        movement: Vec2(0, -600),
        vel: Vec2(1000, -600),
        collided: (Horizontal::Neither, Vertical::Neither),
    };
    let r = resolve_step(swept, obstacle, st);
    assert_eq!(r.movement, Vec2(0, 0));
    assert_eq!(r.vel, Vec2(820, 0));
    assert!(r.collided.1 == Vertical::Down);
    assert!(!swept.translated(r.movement).overlapps(obstacle));
}

#[test]
fn clean_corner_hit_cancels_the_whole_move() {
    let swept = Bounds { min: Vec2(0, 0), max: Vec2(1000, 1000) };
    let obstacle = Bounds { min: Vec2(1500, 1500), max: Vec2(2500, 2500) };
    let st = MoveState {
        movement: Vec2(600, 600),
        vel: Vec2(600, 600),
        collided: (Horizontal::Neither, Vertical::Neither),
    };
    let r = resolve_step(swept, obstacle, st);
    assert_eq!(r.movement, Vec2(0, 0));
    // neither axis resolved it alone, so the flags stay clear
    assert!(r.collided.0 == Horizontal::Neither);
    assert!(r.collided.1 == Vertical::Neither);
    assert!(!swept.translated(r.movement).overlapps(obstacle));
}

#[test]
fn falling_body_comes_to_rest_on_a_tile() {
    let mut w = arena();
    spawn_solid_tile(&mut w, 0, 0);
    let id = w.store.spawn();
    w.store.pos[id] = Some(Pos::from(Vec2(0, 3000)));
    w.store.physics[id] = Some(Physics {
        bounds: Bounds::around(Vec2(0, 0), Vec2(550, 550)),
        vel: Vec2(0, -1000),
        gravity: true,
        collided: (Horizontal::Neither, Vertical::Neither),
    });
    for _ in 0..100 {
        w.update_physics();
    }
    let p = w.store.pos[id].unwrap();
    let ph = w.store.physics[id].unwrap();
    // vertical velocity has resolved to zero and the body's bottom edge
    // rests on the tile's top edge, within one smallest fall step
    assert_eq!(ph.vel.1, 0);
    let bottom = p.curr.1 - 275;
    let tile_top = 1000;
    assert!(bottom >= tile_top);
    assert!(bottom < tile_top + 16);
    assert!(ph.collided.1 == Vertical::Down);
    // and it stays at rest from here on
    let settled = p.curr;
    for _ in 0..10 {
        w.update_physics();
    }
    assert_eq!(w.store.pos[id].unwrap().curr, settled);
}

#[test]
fn cornered_companion_reverses_without_jumping() {
    let mut w = World::new();
    // park the flyer away; the companion stands at the origin
    w.store.pos[0] = Some(Pos::from(Vec2(50_000_000, 50_000_000)));
    // a wall directly ahead at every probe height
    spawn_solid_tile(&mut w, 1, 0);
    spawn_solid_tile(&mut w, 1, 1);
    spawn_solid_tile(&mut w, 1, 2);
    spawn_solid_tile(&mut w, 1, 3);
    // the companion walked right into it and stands on the ground
    let mut ph = w.store.physics[1].unwrap();
    ph.collided = (Horizontal::Right, Vertical::Down);
    w.store.physics[1] = Some(ph);
    assert!(w.store.cary[1].unwrap().walk_right);
    w.update_cary();
    let cy = w.store.cary[1].unwrap();
    let ph = w.store.physics[1].unwrap();
    let sp = w.store.sprite[1].unwrap();
    assert!(!cy.walk_right);
    assert_eq!(ph.vel.1, 0);
    assert!(sp.mirror);
}

#[test]
fn companion_takes_the_first_clear_probe() {
    let mut w = World::new();
    w.store.pos[0] = Some(Pos::from(Vec2(50_000_000, 50_000_000)));
    // only the lowest probe is blocked: a single tile at foot height
    spawn_solid_tile(&mut w, 1, 0);
    let mut ph = w.store.physics[1].unwrap();
    ph.collided = (Horizontal::Right, Vertical::Down);
    w.store.physics[1] = Some(ph);
    w.update_cary();
    let cy = w.store.cary[1].unwrap();
    let ph = w.store.physics[1].unwrap();
    // it keeps its facing and jumps with the low impulse
    assert!(cy.walk_right);
    assert_eq!(ph.vel.0, 1800);
    assert_eq!(ph.vel.1, 5000);
}

#[test]
fn pickup_then_empty_stamina_drops_in_the_same_tick() {
    let mut w = World::new();
    // the companion's detection box must contain the flyer's position
    w.store.pos[1] = Some(Pos::from(Vec2(0, -1500)));
    let mut pl = w.store.player[0].unwrap();
    pl.stamina = 50;
    w.store.player[0] = Some(pl);
    w.input(Key::J, true);
    w.update();
    // picked up: both sides of the relation appeared together
    assert_eq!(w.store.player[0].unwrap().carrying, Some(1));
    assert!(w.store.carryable[1].unwrap().carried);
    assert!(w.store.child_of[1].is_some());
    let co = w.store.child_of[1].unwrap();
    assert_eq!(co.parent, 0);
    assert_eq!(co.offset, Vec2(0, -1300));
    assert_eq!(w.store.children[0].as_ref().unwrap().0.as_slice(), &[1]);
    // while carried, the companion sits exactly at the carry offset
    let ppos = w.store.pos[0].unwrap().curr;
    let cpos = w.store.pos[1].unwrap().curr;
    assert_eq!(cpos, Vec2(ppos.0, ppos.1 - 1300));
    // stamina drains to exactly zero within a few ticks and the drop
    // happens in that same tick, with no second pickup action
    let mut dropped = false;
    for _ in 0..10 {
        w.update();
        let pl = w.store.player[0].unwrap();
        assert!(0 <= pl.stamina && pl.stamina <= STAMINA_MAX);
        if pl.carrying.is_none() {
            dropped = true;
            break;
        }
        assert!(pl.stamina > 0);
    }
    assert!(dropped);
    assert!(!w.store.carryable[1].unwrap().carried);
    assert!(w.store.child_of[1].is_none());
    assert_eq!(w.store.children[0].as_ref().unwrap().0.len(), 0);
}

#[test]
fn pickup_action_reasserted_drops_the_load() {
    let mut w = World::new();
    w.store.pos[1] = Some(Pos::from(Vec2(0, -1500)));
    w.input(Key::J, true);
    w.update();
    assert_eq!(w.store.player[0].unwrap().carrying, Some(1));
    w.input(Key::J, true);
    w.update();
    assert!(w.store.player[0].unwrap().carrying.is_none());
    assert!(!w.store.carryable[1].unwrap().carried);
    assert!(w.store.child_of[1].is_none());
}

#[test]
fn carried_entity_stops_blocking_but_rides_the_sweep() {
    // a flyer pinned in place (no gravity) carrying the movable tile below it
    let mut w = World::new();
    let mut ph = w.store.physics[0].unwrap();
    ph.gravity = false;
    w.store.physics[0] = Some(ph);
    w.store.pos[1] = Some(Pos::from(Vec2(-50_000_000, 50_000_000)));
    let (p, s, c, tph, tca) = cary::components::make_tile_movable(0, 0);
    let tile = w.store.spawn();
    w.store.pos[tile] = Some(Pos { curr: Vec2(0, -1400), ..p });
    w.store.sprite[tile] = Some(s);
    w.store.collider[tile] = Some(c);
    w.store.physics[tile] = Some(tph);
    w.store.carryable[tile] = Some(tca);
    w.input(Key::J, true);
    w.update();
    assert_eq!(w.store.player[0].unwrap().carrying, Some(tile));
    assert_eq!(w.store.pos[tile].unwrap().curr, Vec2(0, -1225));

    // a probe gliding right through the carried tile's cell: the tile is
    // excluded as an obstacle while carried, so nothing stops the probe
    let probe = w.store.spawn();
    w.store.pos[probe] = Some(Pos::from(Vec2(-2000, -800)));
    w.store.physics[probe] = Some(Physics {
        bounds: Bounds::around(Vec2(0, 0), Vec2(550, 550)),
        vel: Vec2(3000, 0),
        gravity: false,
        collided: (Horizontal::Neither, Vertical::Neither),
    });
    for _ in 0..40 {
        w.update_physics();
    }
    assert!(w.store.pos[probe].unwrap().curr.0 > 1000);

    // now push the carrier toward a wall placed so that only the carried
    // tile's box can hit it: the child's box rides the carrier's sweep and
    // blocks the carrier
    let mut ph = w.store.physics[0].unwrap();
    ph.vel = Vec2(3000, 0);
    w.store.physics[0] = Some(ph);
    spawn_solid_tile(&mut w, 2, -2);
    let mut blocked = false;
    for _ in 0..40 {
        w.update_physics();
        if !blocked && w.store.physics[0].unwrap().vel.0 == 0 {
            // the tick that blocked the sweep records the side it hit
            assert!(w.store.physics[0].unwrap().collided.0 == Horizontal::Right);
            blocked = true;
        }
    }
    assert!(blocked);
    let ppos = w.store.pos[0].unwrap().curr;
    assert!(ppos.0 <= 1025, "carrier passed the wall: {:?}", ppos);
    assert!(ppos.0 > 900);
    assert_eq!(w.store.physics[0].unwrap().vel.0, 0);
    // and the carried tile still hangs at its offset
    assert_eq!(w.store.pos[tile].unwrap().curr, Vec2(ppos.0, ppos.1 - 1225));
}

#[test]
fn uncarried_tile_blocks_the_same_probe() {
    let mut w = arena();
    let (p, s, c, mut tph, tca) = cary::components::make_tile_movable(0, 0);
    tph.gravity = false;
    let tile = w.store.spawn();
    w.store.pos[tile] = Some(Pos { curr: Vec2(0, -1225), ..p });
    w.store.sprite[tile] = Some(s);
    w.store.collider[tile] = Some(c);
    w.store.physics[tile] = Some(tph);
    w.store.carryable[tile] = Some(tca);
    let probe = w.store.spawn();
    w.store.pos[probe] = Some(Pos::from(Vec2(-2000, -800)));
    w.store.physics[probe] = Some(Physics {
        bounds: Bounds::around(Vec2(0, 0), Vec2(550, 550)),
        vel: Vec2(3000, 0),
        gravity: false,
        collided: (Horizontal::Neither, Vertical::Neither),
    });
    let mut blocked = false;
    for _ in 0..40 {
        w.update_physics();
        if !blocked && w.store.physics[probe].unwrap().vel.0 == 0 {
            assert!(w.store.physics[probe].unwrap().collided.0 == Horizontal::Right);
            blocked = true;
        }
    }
    assert!(blocked);
    let pr = w.store.pos[probe].unwrap().curr;
    assert!(pr.0 <= -750, "probe passed through the tile: {:?}", pr);
    assert!(pr.0 > -900);
    assert_eq!(w.store.physics[probe].unwrap().vel.0, 0);
}

#[test]
fn stamina_regenerates_to_full_and_no_further() {
    let mut w = World::new();
    let mut pl = w.store.player[0].unwrap();
    pl.stamina = 9_950;
    w.store.player[0] = Some(pl);
    w.update();
    assert_eq!(w.store.player[0].unwrap().stamina, STAMINA_MAX);
    w.update();
    assert_eq!(w.store.player[0].unwrap().stamina, STAMINA_MAX);
}

#[test]
fn killable_on_hazard_ends_in_loss_and_absorbs() {
    let mut w = World::new();
    w.store.pos[1] = Some(Pos::from(Vec2(50_000_000, 50_000_000)));
    let (p, h, s) = cary::components::make_spikes(0, 0, 0);
    let id = w.store.spawn();
    w.store.pos[id] = Some(p);
    w.store.hazzard[id] = Some(h);
    w.store.sprite[id] = Some(s);
    w.update();
    let (center, t0) = match w.state {
        WorldState::Loss(c, t) => (c, t),
        _ => panic!("expected a loss"),
    };
    assert_eq!(t0, 0);
    // the captured position is the flyer's at the moment of the overlap
    assert_eq!(center, w.store.pos[0].unwrap().curr);
    // the ended state only advances its timer
    let before = w.store.pos[0].unwrap().curr;
    w.update();
    match w.state {
        WorldState::Loss(c, t) => {
            assert_eq!(c, center);
            assert_eq!(t, 40);
        },
        _ => panic!("loss is absorbing"),
    }
    assert_eq!(w.store.pos[0].unwrap().curr, before);
}

#[test]
fn companion_inside_exit_wins_the_level() {
    let mut w = World::new();
    w.store.pos[0] = Some(Pos::from(Vec2(50_000_000, 50_000_000)));
    let (p, e, s) = cary::components::make_exit(0, 0);
    let id = w.store.spawn();
    w.store.pos[id] = Some(p);
    w.store.exit[id] = Some(e);
    w.store.sprite[id] = Some(s);
    w.update();
    match w.state {
        WorldState::Victory(c, t) => {
            assert_eq!(t, 0);
            assert_eq!(c, w.store.pos[1].unwrap().curr);
        },
        _ => panic!("expected a victory"),
    }
}

#[test]
fn camera_eases_toward_the_pair_and_zooms_out() {
    let mut w = World::new();
    w.store.pos[1] = Some(Pos::from(Vec2(100_000, 0)));
    assert_eq!(w.camera, Camera { pos: Vec2(0, 0), size: 7000 });
    w.update_camera();
    assert_eq!(w.camera.pos, Vec2(325, 0));
    assert_eq!(w.camera.size, 7607);
}

#[test]
fn camera_is_stationary_when_the_pair_rests_at_its_center() {
    let mut w = World::new();
    w.update_camera();
    assert_eq!(w.camera, Camera { pos: Vec2(0, 0), size: 7000 });
}

#[test]
fn flap_brakes_a_fall_and_caps_upward_speed() {
    let mut w = World::new();
    w.store.pos[1] = Some(Pos::from(Vec2(50_000_000, 50_000_000)));
    let mut ph = w.store.physics[0].unwrap();
    ph.vel = Vec2(0, -2000);
    w.store.physics[0] = Some(ph);
    // make the flight animation finished so the flap gate is open
    let mut sp = w.store.sprite[0].unwrap();
    sp.timer_ms = 1_000_000;
    w.store.sprite[0] = Some(sp);
    w.input(Key::W, true);
    w.update();
    let ph = w.store.physics[0].unwrap();
    // -2000 braked to -1280, plus the flap impulse, minus one tick of
    // gravity applied by the integrator
    assert_eq!(ph.vel.1, -1280 + 5600 - 400);
    let sp = w.store.sprite[0].unwrap();
    // the flight animation restarted and has run for this one tick
    assert_eq!(sp.timer_ms, 40);
}

#[test]
fn horizontal_intent_accelerates_toward_the_cap() {
    let mut w = World::new();
    w.store.pos[1] = Some(Pos::from(Vec2(50_000_000, 50_000_000)));
    w.input(Key::D, true);
    w.update();
    assert_eq!(w.store.physics[0].unwrap().vel.0, 312);
    // holding the key keeps accelerating
    w.update();
    assert_eq!(w.store.physics[0].unwrap().vel.0, 624);
}
