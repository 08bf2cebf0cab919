//! Entity constructors: each bundles its fixed, validated component set.

use cary::components::{
    make_bullet, make_cary, make_divider, make_exit, make_player, make_shooter, make_spikes,
    make_tile_background, make_tile_movable, make_tile_solid, make_trap, Controllable, Horizontal,
    Vertical, STAMINA_MAX,
};
use cary::math::{Bounds, Vec2};
use cary::render::{Layer, TexId};

#[test]
fn solid_tile_owns_its_cell() {
    let (pos, sprite, collider) = make_tile_solid(3, -2);
    assert_eq!(pos.curr, Vec2(3000, -2000));
    assert_eq!(pos.prev_interpol, pos.curr);
    assert!(sprite.tex == TexId::TileSolid);
    assert_eq!(collider.bounds, Bounds { min: Vec2(-500, 0), max: Vec2(500, 1000) });
}

#[test]
fn background_tile_sits_behind_its_cell() {
    let (pos, sprite) = make_tile_background(1, 1);
    assert_eq!(pos.curr, Vec2(1000, 1000));
    assert!(sprite.tex == TexId::TileFree);
    assert!(sprite.layer == Layer::Background);
    assert_eq!(sprite.offset, Vec2(0, -1000));
    assert!(!sprite.running);
}

#[test]
fn movable_tile_is_solid_heavy_and_carryable() {
    let (_, _, collider, physics, carryable) = make_tile_movable(0, 0);
    assert_eq!(collider.bounds, Bounds { min: Vec2(-475, 25), max: Vec2(475, 975) });
    assert_eq!(physics.bounds, collider.bounds);
    assert!(physics.gravity);
    assert_eq!(physics.vel, Vec2(0, 0));
    assert_eq!(carryable.detect_bounds, Bounds { min: Vec2(-600, 1000), max: Vec2(600, 1800) });
    assert_eq!(carryable.carry_offset, Vec2(0, -1225));
    assert!(!carryable.carried);
}

#[test]
fn spike_boxes_follow_their_rotation() {
    let up = make_spikes(0, 0, 0).1.bounds;
    assert_eq!(up, Bounds { min: Vec2(-500, 0), max: Vec2(500, 800) });
    let right = make_spikes(0, 0, 1).1.bounds;
    assert_eq!(right, Bounds { min: Vec2(-500, 0), max: Vec2(300, 1000) });
    let down = make_spikes(0, 0, 2).1.bounds;
    assert_eq!(down, Bounds { min: Vec2(-500, 200), max: Vec2(500, 1000) });
    let left = make_spikes(0, 0, 3).1.bounds;
    assert_eq!(left, Bounds { min: Vec2(-300, 0), max: Vec2(500, 1000) });
}

#[test]
fn divider_boxes_are_thin_beams() {
    let vertical = make_divider(0, 0, true).1.bounds;
    assert_eq!(vertical, Bounds { min: Vec2(-140, 0), max: Vec2(140, 1000) });
    let horizontal = make_divider(0, 0, false).1.bounds;
    assert_eq!(horizontal, Bounds { min: Vec2(-500, 313), max: Vec2(500, 687) });
}

#[test]
fn trap_boxes_hug_their_mounting_side() {
    assert_eq!(make_trap(0, 0, 0).1.bounds, Bounds { min: Vec2(-400, 550), max: Vec2(400, 950) });
    assert_eq!(make_trap(0, 0, 1).1.bounds, Bounds { min: Vec2(50, 100), max: Vec2(450, 900) });
    assert_eq!(make_trap(0, 0, 2).1.bounds, Bounds { min: Vec2(-400, 50), max: Vec2(400, 450) });
    assert_eq!(make_trap(0, 0, 3).1.bounds, Bounds { min: Vec2(-450, 100), max: Vec2(-50, 900) });
}

#[test]
fn bullet_flies_toward_its_target_without_gravity() {
    let (pos, _, physics, hazard, _) = make_bullet(Vec2(0, 0), Vec2(3000, 4000));
    assert_eq!(pos.curr, Vec2(0, 0));
    // three tiles per second along the unit direction (600, 800)
    assert_eq!(physics.vel, Vec2(1800, 2400));
    assert!(!physics.gravity);
    assert_eq!(physics.bounds, Bounds { min: Vec2(-300, -300), max: Vec2(300, 300) });
    assert_eq!(hazard.bounds, Bounds { min: Vec2(-200, -200), max: Vec2(200, 200) });
}

#[test]
fn shooter_is_solid_with_a_cooldown() {
    let (_, _, collider, shooter) = make_shooter(0, 0);
    assert_eq!(collider.bounds, Bounds { min: Vec2(-500, 0), max: Vec2(500, 1000) });
    assert_eq!(shooter.cooldown_ms, 2000);
}

#[test]
fn player_bundle_starts_full_and_empty_handed() {
    let (player, pos, physics, control, children, killable, sprite) = make_player(Vec2(500, 700));
    assert_eq!(player.stamina, STAMINA_MAX);
    assert!(player.carrying.is_none());
    assert_eq!(pos.curr, Vec2(500, 700));
    assert_eq!(physics.bounds, Bounds { min: Vec2(-275, -275), max: Vec2(275, 275) });
    assert!(physics.gravity);
    assert!(control.horizontal == Horizontal::Neither);
    assert!(control.vertical == Vertical::Neither);
    assert!(children.0.is_empty());
    assert!(killable.loss_on_death);
    assert!(sprite.tex == TexId::PlayerFly);
    assert!(!sprite.repeat);
}

#[test]
fn companion_bundle_walks_right_and_can_be_carried() {
    let (cary, _, physics, killable, carryable, sprite) = make_cary(Vec2(0, 0));
    assert!(cary.walk_right);
    assert_eq!(physics.bounds, Bounds { min: Vec2(-350, 0), max: Vec2(350, 1200) });
    assert_eq!(killable.bounds, Bounds { min: Vec2(-150, 0), max: Vec2(150, 1200) });
    assert_eq!(carryable.carry_offset, Vec2(0, -1300));
    assert!(sprite.tex == TexId::CaryWalk);
    assert!(sprite.repeat);
}

#[test]
fn exit_trigger_is_a_tall_slot() {
    let (_, exit, sprite) = make_exit(2, 0);
    assert_eq!(exit.0, Bounds { min: Vec2(-150, -200), max: Vec2(150, 1400) });
    assert!(sprite.tex == TexId::Exit);
}

#[test]
fn default_control_has_no_intent() {
    let c = Controllable::default();
    assert!(c.horizontal == Horizontal::Neither);
    assert!(c.vertical == Vertical::Neither);
    assert!(!c.pick_up);
}

#[test]
fn layer_depths_order_front_to_back() {
    assert_eq!(Layer::Ui.depth(), 1);
    assert_eq!(Layer::ForegroundTile.depth(), 3);
    assert_eq!(Layer::ForegroundPlayer.depth(), 4);
    assert_eq!(Layer::ForegroundPickupHint.depth(), 5);
    assert_eq!(Layer::Foreground.depth(), 7);
    assert_eq!(Layer::Background.depth(), 8);
    assert_eq!(Layer::BackgroundTile.depth(), 9);
}
