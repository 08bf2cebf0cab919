//! Render extraction, sprite timing, the input snapshot and the scheduler.

use cary::components::{Sprite, Pos, Horizontal, Vertical};
use cary::input::{Keys, Key, KeyHold};
use cary::math::Vec2;
use cary::render::{
    frame_index, render_show_controls, render_victory, Layer, TexAnchor, TexId, DrawCmd,
};
use cary::sched::Scheduler;
use cary::world::{World, WorldState};

#[test]
fn looping_sprites_wrap_and_never_finish() {
    let mut sp = Sprite::ani(TexId::CaryWalk, 2, TexAnchor::Bottom, Layer::Foreground, 100, true, 0);
    sp.timer_ms = 250;
    assert_eq!(sp.timer(), 50);
    assert!(!sp.finished());
    assert_eq!(frame_index(&sp), 0);
    sp.timer_ms = 150;
    assert_eq!(frame_index(&sp), 1);
}

#[test]
fn one_shot_sprites_clamp_and_finish() {
    let mut sp = Sprite::ani(
        TexId::PlayerFly,
        2,
        TexAnchor::Center,
        Layer::Foreground,
        100,
        false,
        0,
    );
    sp.timer_ms = 150;
    assert_eq!(sp.timer(), 150);
    assert!(!sp.finished());
    assert_eq!(frame_index(&sp), 1);
    sp.timer_ms = 500;
    assert!(sp.finished());
    assert_eq!(frame_index(&sp), 1);
}

#[test]
fn conflicting_keys_cancel_to_no_intent() {
    let mut keys = Keys::new();
    keys.press(Key::W);
    keys.press(Key::S);
    keys.press(Key::A);
    let ctrl = keys.resolve();
    assert!(ctrl.vertical == Vertical::Neither);
    assert!(ctrl.horizontal == Horizontal::Left);
    keys.release(Key::S);
    let ctrl = keys.resolve();
    assert!(ctrl.vertical == Vertical::Up);
}

#[test]
fn pickup_fires_only_on_a_fresh_press() {
    let mut keys = Keys::new();
    keys.press(Key::J);
    assert!(keys.j == KeyHold::Fresh);
    let ctrl = keys.resolve();
    assert!(ctrl.pick_up);
    // the press went stale: held, but no longer a pickup action
    assert!(keys.j == KeyHold::Stale);
    let ctrl = keys.resolve();
    assert!(!ctrl.pick_up);
    keys.release(Key::J);
    let ctrl = keys.resolve();
    assert!(!ctrl.pick_up);
}

#[test]
fn scheduler_advances_by_whole_ticks_only() {
    let mut sched = Scheduler::new(1_000);
    let p = sched.poll(1_000);
    assert!(!p.step && !p.render);
    assert_eq!(p.lerp_milli, 0);
    // one full tick later: a step, a frame, and an exact tick advance
    let p = sched.poll(41_000);
    assert!(p.step && p.render);
    assert_eq!(sched.last_update_us, 41_000);
    assert_eq!(sched.last_frame_us, 17_667);
    assert_eq!(p.lerp_milli, 0);
    // a frame between ticks interpolates by the elapsed fraction
    let p = sched.poll(50_000);
    assert!(!p.step && p.render);
    assert_eq!(sched.last_frame_us, 34_334);
    assert_eq!(p.lerp_milli, 9_000 * 1000 / 40_000);
}

#[test]
fn fresh_world_draws_its_two_sprites() {
    let w = World::new();
    let frame = w.render(0);
    assert_eq!(frame.draws.len(), 2);
    let player_cmd = &frame.draws[0];
    assert_eq!(player_cmd.pos, Vec2(0, 0));
    assert!(player_cmd.tex == TexId::PlayerFly);
    assert_eq!(player_cmd.frame, 0);
    assert!(player_cmd.layer == Layer::Foreground);
    assert!(!player_cmd.ui);
    assert!(frame.draws[1].tex == TexId::CaryWalk);
    assert_eq!(frame.transition.progress_milli, 0);
    assert!(!frame.transition.victory);
}

#[test]
fn interpolated_draw_blends_previous_and_current_position() {
    let mut w = World::new();
    w.store.pos[0] = Some(Pos { curr: Vec2(1000, 0), prev_interpol: Vec2(0, 0) });
    let at_start = w.render(0);
    assert_eq!(at_start.draws[0].pos, Vec2(0, 0));
    let half = w.render(500);
    assert_eq!(half.draws[0].pos, Vec2(500, 0));
    let done = w.render(1000);
    assert_eq!(done.draws[0].pos, Vec2(1000, 0));
}

#[test]
fn pickup_hint_floats_over_a_reachable_carryable() {
    let mut w = World::new();
    w.store.pos[1] = Some(Pos::from(Vec2(0, -1500)));
    let frame = w.render(0);
    // two sprites plus the hint
    assert_eq!(frame.draws.len(), 3);
    let hint = &frame.draws[2];
    assert!(hint.tex == TexId::PickupHint);
    assert!(hint.layer == Layer::ForegroundPickupHint);
    // half the carry offset below the flyer
    assert_eq!(hint.pos, Vec2(0, -650));
}

#[test]
fn stamina_bar_appears_while_the_bar_is_not_full() {
    let mut w = World::new();
    let mut pl = w.store.player[0].unwrap();
    pl.stamina = 4_567;
    w.store.player[0] = Some(pl);
    let frame = w.render(0);
    assert_eq!(frame.draws.len(), 3);
    let bar = &frame.draws[2];
    assert!(bar.tex == TexId::StaminaBar);
    assert!(bar.anchor == TexAnchor::Bottom);
    assert_eq!(bar.pos, Vec2(0, 700));
    // ten bar frames over the full range
    assert_eq!(bar.frame, 4);
}

#[test]
fn ended_level_shows_its_transition_and_then_the_overlay() {
    let mut w = World::new();
    w.state = WorldState::Loss(Vec2(2000, 3000), 1000);
    let frame = w.render(0);
    assert_eq!(frame.transition.center, Vec2(2000, 3000));
    assert_eq!(frame.transition.progress_milli, 1300);
    assert!(!frame.transition.victory);
    assert_eq!(frame.draws.len(), 2);
    // once the minimum wait has elapsed, the retry text appears
    w.state = WorldState::Loss(Vec2(2000, 3000), 1600);
    let frame = w.render(0);
    assert_eq!(frame.draws.len(), 3);
    let overlay = &frame.draws[2];
    assert!(overlay.tex == TexId::TextRetry);
    assert!(overlay.ui);
    // a victory uses the advance text instead
    w.state = WorldState::Victory(Vec2(0, 0), 1600);
    let frame = w.render(0);
    assert!(frame.transition.victory);
    assert!(frame.draws[2].tex == TexId::TextNext);
}

#[test]
fn interface_screens_tile_the_backdrop_under_one_card() {
    let controls = render_show_controls();
    assert_eq!(controls.draws.len(), 61 * 20 + 1);
    let first: &DrawCmd = &controls.draws[0];
    assert_eq!(first.pos, Vec2(-30_000, -10_000));
    assert!(first.tex == TexId::Cyan);
    let last = &controls.draws[61 * 20];
    assert!(last.tex == TexId::Controls);
    assert!(last.ui);
    let victory = render_victory();
    assert!(victory.draws[61 * 20].tex == TexId::Victory);
    assert_eq!(victory.camera.size, 7000);
}
