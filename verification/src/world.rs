//! The world orchestrator: holds the entity store, the input snapshot, the
//! camera and the level state, and runs the per-tick systems in a fixed
//! order that behavior depends on: input resolution, player control,
//! companion patrol, physics with collision resolution, hierarchy
//! propagation, hazard and exit detection, animation timers, camera.

use vstd::prelude::*;
use crate::math::{Vec2, Bounds, div_tz, div_trunc, mul_frac, COORD_LIMIT, VEL_LIMIT};
use crate::math::{lemma_frac_shrinks, lemma_div_tz_shrinks};
use crate::components::{
    Pos, Physics, Children, ChildOf, Killable, Carryable, Controllable, Player, Cary, Sprite,
    Horizontal, Vertical, make_player, make_cary, STAMINA_MAX, TIMER_CAP_MS,
};
use crate::store::Store;
use crate::physics::{
    MoveState, obstacles_from, resolve_movement, tick_movement, snap_vel, clamp_coord,
    spec_resolve_obstacles, spec_snap, spec_clamp_coord, TICKS_PER_SECOND,
};
use crate::input::{Keys, Key, spec_vertical, spec_horizontal, KeyHold};
use crate::render::{TexId, PLAYER_FLY_FRAMES, PLAYER_FLY_FRAME_MS};

verus! {

/// Milliseconds of one simulation tick (25 ticks per second).
pub const TICK_MS: u64 = 40;

/// How long a finished level keeps showing before input may advance it.
pub const GAME_END_WAIT_MS: u64 = 1500;

/// Gravity per tick (10 tiles per second squared).
pub const GRAVITY_PER_TICK: i64 = 400;

/// Fastest downward speed gravity accelerates to.
pub const TERMINAL_VELOCITY: i64 = 12_000;

/// Upward impulse of one flap.
pub const FLAP_ACC: i64 = 5_600;

/// Per-tick fraction kept of downward speed when a flap starts (a decay of 9
/// per second).
pub const FLAP_FALL_DECEL_NUM: i64 = 64;

/// Fastest upward speed a flap accelerates to.
pub const MAX_SPEED_UPWARDS: i64 = 10_000;

/// Upward drift added per tick while idling (5 tiles per second squared),
/// which gravity more than cancels, leaving a gentle net fall.
pub const IDLE_ACC_PER_TICK: i64 = 200;

/// Dive tuning: full strength, per-tick acceleration, and the per-tick
/// fraction kept of horizontal speed while diving.
pub const DIVE_STRENGTH: i64 = 25_000;

pub const DIVE_ACC_PER_TICK: i64 = 1_000;

pub const DIVE_DAMP_NUM: i64 = 80;

/// Horizontal acceleration per tick and its cap.
pub const HORIZONTAL_ACC_PER_TICK: i64 = 312;

pub const MAX_HORIZONTAL_SPEED: i64 = 4_000;

/// Stamina drained per tick while carrying, and regained otherwise.
pub const STAMINA_DRAIN_PER_TICK: i64 = 72;

pub const STAMINA_REGEN_PER_TICK: i64 = 120;

/// The companion's walk speed and its three jump impulses.
pub const WALK_SPEED: i64 = 1_800;

pub const HOP_SPEED: i64 = 1_500;

pub const JUMP_SPEED_LOW: i64 = 5_000;

pub const JUMP_SPEED: i64 = 6_700;

/// Camera tuning: zoom range, easing fractions, and framing margins.
pub const CAM_SIZE_MIN: i64 = 7_000;

pub const CAM_SIZE_MAX: i64 = 12_000;

/// Camera positions may run slightly past the stored-position limit.
pub const CAM_POS_LIMIT: i64 = 100_020_000_000;

/// Whether the level is still being played, or how it ended: where, and how
/// long ago. The two ended states are absorbing until a level is loaded.
#[derive(Clone, Copy, Debug, PartialEq, Eq, Structural)]
pub enum WorldState {
    Running,
    Loss(Vec2, u64),
    Victory(Vec2, u64),
}

/// The flyer's velocity and sprite after one tick of control: flapping
/// first brakes any downward speed, then adds the flap impulse up to the
/// upward cap and restarts the flight animation; idling drifts gently
/// downward (clamped at the velocity ceiling) and shows the idle or, past a
/// threshold of downward speed, the dive sprite; diving damps horizontal
/// speed and accelerates hard downward until half the dive strength.
/// Flap and idle act only once the current animation has finished.
/// Horizontal intent accelerates toward the horizontal speed cap.
pub open spec fn spec_player_motion(
    vel: Vec2,
    vertical: Vertical,
    horizontal: Horizontal,
    sprite: Sprite,
) -> (Vec2, Sprite) {
    let vs = if vertical == Vertical::Up && sprite.spec_finished() {
        let braked = if vel.1 < 0 {
            div_tz(vel.1 * FLAP_FALL_DECEL_NUM, 100)
        } else {
            vel.1 as int
        };
        let vy = if braked + FLAP_ACC > MAX_SPEED_UPWARDS {
            MAX_SPEED_UPWARDS as int
        } else {
            braked + FLAP_ACC
        };
        (
            Vec2(vel.0, vy as i64),
            Sprite { tex: TexId::PlayerFly, frames: PLAYER_FLY_FRAMES, timer_ms: 0, ..sprite },
        )
    } else if vertical == Vertical::Neither && sprite.spec_finished() {
        let tex = if vel.1 < -7_500 {
            TexId::PlayerDive
        } else {
            TexId::PlayerIdle
        };
        let vy = if vel.1 + IDLE_ACC_PER_TICK > VEL_LIMIT {
            VEL_LIMIT as int
        } else {
            vel.1 + IDLE_ACC_PER_TICK
        };
        (Vec2(vel.0, vy as i64), Sprite { tex, frames: 1, ..sprite })
    } else if vertical == Vertical::Down {
        if vel.1 > -12_500 {
            (
                Vec2(
                    div_tz(vel.0 * DIVE_DAMP_NUM, 100) as i64,
                    (vel.1 - DIVE_ACC_PER_TICK) as i64,
                ),
                Sprite { tex: TexId::PlayerDive, frames: 1, ..sprite },
            )
        } else {
            (vel, Sprite { tex: TexId::PlayerDive, frames: 1, ..sprite })
        }
    } else {
        (vel, sprite)
    };
    let v1 = vs.0;
    let v2 = if horizontal == Horizontal::Left && v1.0 > -MAX_HORIZONTAL_SPEED {
        Vec2((v1.0 - HORIZONTAL_ACC_PER_TICK) as i64, v1.1)
    } else if horizontal == Horizontal::Right && v1.0 < MAX_HORIZONTAL_SPEED {
        Vec2((v1.0 + HORIZONTAL_ACC_PER_TICK) as i64, v1.1)
    } else {
        v1
    };
    (v2, vs.1)
}

/// Stamina after one tick: draining toward zero while carrying, regaining
/// toward full otherwise.
pub open spec fn spec_stamina_step(stamina: int, carrying: bool) -> int {
    if carrying {
        if stamina - STAMINA_DRAIN_PER_TICK < 0 {
            0
        } else {
            stamina - STAMINA_DRAIN_PER_TICK
        }
    } else {
        if stamina + STAMINA_REGEN_PER_TICK > STAMINA_MAX {
            STAMINA_MAX as int
        } else {
            stamina + STAMINA_REGEN_PER_TICK
        }
    }
}

fn player_motion(vel: Vec2, vertical: Vertical, horizontal: Horizontal, sprite: Sprite) -> (r: (
    Vec2,
    Sprite,
))
    requires
        vel.bounded(VEL_LIMIT as int),
        sprite.wf(),
    ensures
        r == spec_player_motion(vel, vertical, horizontal, sprite),
        r.0.bounded(VEL_LIMIT as int),
        r.1.wf(),
{
    let finished = sprite.finished();
    let vs: (Vec2, Sprite) = if vertical == Vertical::Up && finished {
        let braked = if vel.1 < 0 {
            proof {
                lemma_frac_shrinks(vel.1 as int, FLAP_FALL_DECEL_NUM as int, 100);
            }
            mul_frac(vel.1, FLAP_FALL_DECEL_NUM, 100)
        } else {
            vel.1
        };
        let vy = if braked + FLAP_ACC > MAX_SPEED_UPWARDS {
            MAX_SPEED_UPWARDS
        } else {
            braked + FLAP_ACC
        };
        (
            Vec2(vel.0, vy),
            Sprite { tex: TexId::PlayerFly, frames: PLAYER_FLY_FRAMES, timer_ms: 0, ..sprite },
        )
    } else if vertical == Vertical::Neither && finished {
        let tex = if vel.1 < -7_500 {
            TexId::PlayerDive
        } else {
            TexId::PlayerIdle
        };
        let vy = if vel.1 + IDLE_ACC_PER_TICK > VEL_LIMIT {
            VEL_LIMIT
        } else {
            vel.1 + IDLE_ACC_PER_TICK
        };
        (Vec2(vel.0, vy), Sprite { tex, frames: 1, ..sprite })
    } else if vertical == Vertical::Down {
        if vel.1 > -12_500 {
            proof {
                lemma_frac_shrinks(vel.0 as int, DIVE_DAMP_NUM as int, 100);
            }
            (
                Vec2(mul_frac(vel.0, DIVE_DAMP_NUM, 100), vel.1 - DIVE_ACC_PER_TICK),
                Sprite { tex: TexId::PlayerDive, frames: 1, ..sprite },
            )
        } else {
            (vel, Sprite { tex: TexId::PlayerDive, frames: 1, ..sprite })
        }
    } else {
        (vel, sprite)
    };
    let v1 = vs.0;
    let v2 = if horizontal == Horizontal::Left && v1.0 > -MAX_HORIZONTAL_SPEED {
        Vec2(v1.0 - HORIZONTAL_ACC_PER_TICK, v1.1)
    } else if horizontal == Horizontal::Right && v1.0 < MAX_HORIZONTAL_SPEED {
        Vec2(v1.0 + HORIZONTAL_ACC_PER_TICK, v1.1)
    } else {
        v1
    };
    (v2, vs.1)
}

fn stamina_step(stamina: i64, carrying: bool) -> (r: i64)
    requires
        0 <= stamina <= STAMINA_MAX,
    ensures
        r == spec_stamina_step(stamina as int, carrying),
        0 <= r <= STAMINA_MAX,
{
    if carrying {
        if stamina - STAMINA_DRAIN_PER_TICK < 0 {
            0
        } else {
            stamina - STAMINA_DRAIN_PER_TICK
        }
    } else {
        if stamina + STAMINA_REGEN_PER_TICK > STAMINA_MAX {
            STAMINA_MAX
        } else {
            stamina + STAMINA_REGEN_PER_TICK
        }
    }
}

/// Every previous-step position reset to its current one; nothing else in
/// the store moves.
pub open spec fn interpol_reset(pre: Store, post: Store) -> bool {
    &&& post.physics == pre.physics
    &&& same_except_motion(pre, post)
    &&& post.pos@.len() == pre.pos@.len()
    &&& forall|i: int|
        0 <= i < pre.n() ==> #[trigger] post.pos@[i] == (match pre.pos@[i] {
            Some(p) => Some(Pos { curr: p.curr, prev_interpol: p.curr }),
            None => None::<Pos>,
        })
}

/// The snapshot's intents resolved onto the flyer's control record; nothing
/// else in the store moves.
pub open spec fn controls_resolved(pre: Store, post: Store, p: int, keys: Keys) -> bool {
    &&& post.controllable@ == pre.controllable@.update(
        p,
        Some(
            Controllable {
                horizontal: spec_horizontal(keys),
                vertical: spec_vertical(keys),
                pick_up: keys.j == KeyHold::Fresh,
            },
        ),
    )
    &&& post.pos == pre.pos
    &&& post.physics == pre.physics
    &&& post.collider == pre.collider
    &&& post.children == pre.children
    &&& post.child_of == pre.child_of
    &&& post.killable == pre.killable
    &&& post.hazzard == pre.hazzard
    &&& post.carryable == pre.carryable
    &&& post.player == pre.player
    &&& post.cary == pre.cary
    &&& post.exit == pre.exit
    &&& post.sprite == pre.sprite
    &&& post.shooter == pre.shooter
    &&& post.remove_on_impact == pre.remove_on_impact
}

/// One tick of the flyer's own behavior, as a relation on stores: the
/// control rules move its velocity and sprite, stamina drains while
/// carrying and regains otherwise, the flap cooldown runs down, and the
/// carry state machine fires — a pickup action while carrying, or stamina
/// reaching exactly zero, drops the carried entity; a pickup action while
/// free picks up the first carryable in reach.
pub open spec fn player_ticked(pre: Store, post: Store, p: int) -> bool {
    let ctrl = pre.controllable@[p]->Some_0;
    let ph = pre.physics@[p]->Some_0;
    let sp = pre.sprite@[p]->Some_0;
    let pl = pre.player@[p]->Some_0;
    let vs = spec_player_motion(ph.vel, ctrl.vertical, ctrl.horizontal, sp);
    let st2 = spec_stamina_step(pl.stamina as int, pl.carrying is Some);
    &&& post.pos == pre.pos
    &&& post.collider == pre.collider
    &&& post.killable == pre.killable
    &&& post.hazzard == pre.hazzard
    &&& post.controllable == pre.controllable
    &&& post.cary == pre.cary
    &&& post.exit == pre.exit
    &&& post.shooter == pre.shooter
    &&& post.remove_on_impact == pre.remove_on_impact
    &&& post.physics@ == pre.physics@.update(p, Some(Physics { vel: vs.0, ..ph }))
    &&& post.sprite@ == pre.sprite@.update(p, Some(vs.1))
    &&& post.player@[p] is Some
    &&& post.player@[p]->Some_0.stamina == st2
    &&& post.player@[p]->Some_0.flap_cooldown_ms == if pl.flap_cooldown_ms >= TICK_MS {
        pl.flap_cooldown_ms - TICK_MS
    } else {
        0
    }
    &&& forall|i: int| 0 <= i < pre.n() && i != p ==> #[trigger] post.player@[i] == pre.player@[i]
    &&& forall|i: int|
        0 <= i < pre.n() && i != p ==> #[trigger] post.children@[i] == pre.children@[i]
    &&& match pl.carrying {
        Some(c) => if ctrl.pick_up || st2 == 0 {
            &&& post.player@[p]->Some_0.carrying is None
            &&& post.children@[p]->Some_0.0@.len() == 0
            &&& post.carryable@ == pre.carryable@.update(
                c as int,
                Some(Carryable { carried: false, ..pre.carryable@[c as int]->Some_0 }),
            )
            &&& post.child_of@ == pre.child_of@.update(c as int, None::<ChildOf>)
        } else {
            &&& post.player@[p]->Some_0.carrying == Some(c)
            &&& post.children == pre.children
            &&& post.carryable == pre.carryable
            &&& post.child_of == pre.child_of
        },
        None => {
            let cand = World::spec_find_pickupable_from(pre, pre.pos@[p]->Some_0.curr, 0);
            if ctrl.pick_up && cand is Some {
                let c = cand->Some_0 as int;
                &&& post.player@[p]->Some_0.carrying == cand
                &&& post.children@[p]->Some_0.0@ == seq![cand->Some_0]
                &&& post.carryable@ == pre.carryable@.update(
                    c,
                    Some(Carryable { carried: true, ..pre.carryable@[c]->Some_0 }),
                )
                &&& post.child_of@ == pre.child_of@.update(
                    c,
                    Some(
                        ChildOf {
                            parent: p as usize,
                            offset: pre.carryable@[c]->Some_0.carry_offset,
                            collision: pre.physics@[c]->Some_0.bounds,
                        },
                    ),
                )
            } else {
                &&& post.player@[p]->Some_0.carrying is None
                &&& post.children == pre.children
                &&& post.carryable == pre.carryable
                &&& post.child_of == pre.child_of
            }
        },
    }
}

/// One tick of the companion's patrol, as a relation on stores: while not
/// carried it walks at its fixed speed in its facing direction whenever
/// grounded or rising, and a grounded leading-edge collision either takes
/// the first clear jump probe or reverses its facing.
pub open spec fn cary_ticked(pre: Store, post: Store, cid: int) -> bool {
    let ca = pre.carryable@[cid]->Some_0;
    let cy = pre.cary@[cid]->Some_0;
    let ph = pre.physics@[cid]->Some_0;
    let grounded = ph.collided.1 == Vertical::Down;
    let walk: i64 = if cy.walk_right {
        WALK_SPEED
    } else {
        (-WALK_SPEED) as i64
    };
    let vx = if grounded || ph.vel.1 > 0 {
        walk
    } else {
        ph.vel.0
    };
    let leading = grounded && ((ph.collided.0 == Horizontal::Left && !cy.walk_right) || (
    ph.collided.0 == Horizontal::Right && cy.walk_right));
    let base = ph.bounds.spec_translated(pre.pos@[cid]->Some_0.curr);
    &&& post.pos == pre.pos
    &&& post.collider == pre.collider
    &&& post.children == pre.children
    &&& post.child_of == pre.child_of
    &&& post.killable == pre.killable
    &&& post.hazzard == pre.hazzard
    &&& post.carryable == pre.carryable
    &&& post.controllable == pre.controllable
    &&& post.player == pre.player
    &&& post.exit == pre.exit
    &&& post.shooter == pre.shooter
    &&& post.remove_on_impact == pre.remove_on_impact
    &&& if ca.carried {
        post == pre
    } else if leading {
        match World::spec_cary_probe(pre, base, cy.walk_right) {
            Some(vy) => {
                &&& post.physics@ == pre.physics@.update(
                    cid,
                    Some(Physics { vel: Vec2(vx, vy), ..ph }),
                )
                &&& post.cary == pre.cary
                &&& post.sprite == pre.sprite
            },
            None => {
                &&& post.physics@ == pre.physics@.update(
                    cid,
                    Some(Physics { vel: Vec2(vx, ph.vel.1), ..ph }),
                )
                &&& post.cary@ == pre.cary@.update(cid, Some(Cary { walk_right: !cy.walk_right }))
                &&& post.sprite@ == pre.sprite@.update(
                    cid,
                    Some(Sprite { mirror: cy.walk_right, ..pre.sprite@[cid]->Some_0 }),
                )
            },
        }
    } else {
        &&& post.physics@ == pre.physics@.update(cid, Some(Physics { vel: Vec2(vx, ph.vel.1), ..ph }))
        &&& post.cary == pre.cary
        &&& post.sprite == pre.sprite
    }
}

/// Every running animation timer advanced one tick, saturating at the cap;
/// nothing else in the store moves.
pub open spec fn animations_ticked(pre: Store, post: Store) -> bool {
    &&& post.pos == pre.pos
    &&& post.physics == pre.physics
    &&& post.collider == pre.collider
    &&& post.children == pre.children
    &&& post.child_of == pre.child_of
    &&& post.killable == pre.killable
    &&& post.hazzard == pre.hazzard
    &&& post.carryable == pre.carryable
    &&& post.controllable == pre.controllable
    &&& post.player == pre.player
    &&& post.cary == pre.cary
    &&& post.exit == pre.exit
    &&& post.shooter == pre.shooter
    &&& post.remove_on_impact == pre.remove_on_impact
    &&& post.sprite@.len() == pre.sprite@.len()
    &&& forall|i: int|
        0 <= i < pre.sprite@.len() ==> #[trigger] post.sprite@[i] == (match pre.sprite@[i] {
            Some(sp) => Some(
                Sprite {
                    timer_ms: if sp.running && sp.timer_ms + TICK_MS <= TIMER_CAP_MS {
                        (sp.timer_ms + TICK_MS) as u64
                    } else {
                        sp.timer_ms
                    },
                    ..sp
                },
            ),
            None => None::<Sprite>,
        })
}

/// The store transformations of one running tick, in the required system
/// order: the interpolation reset, the input resolution onto the flyer's
/// control record, the flyer's tick, the companion's tick, the physics tick
/// with hierarchy propagation, and the animation timers. The hazard and
/// exit detectors and the camera read the result without moving the store.
pub open spec fn spec_running_tick(pre: World, post: World) -> bool {
    exists|s1: Store, s2: Store, s3: Store, s4: Store, s5: Store|
        #![trigger interpol_reset(pre.store, s1), controls_resolved(s1, s2, pre.player as int, pre.keys), player_ticked(s2, s3, pre.player as int), cary_ticked(s3, s4, pre.cary as int), spec_physics_tick(s4, s5)]
        {
            &&& interpol_reset(pre.store, s1)
            &&& controls_resolved(s1, s2, pre.player as int, pre.keys)
            &&& player_ticked(s2, s3, pre.player as int)
            &&& cary_ticked(s3, s4, pre.cary as int)
            &&& spec_physics_tick(s4, s5)
            &&& animations_ticked(s5, post.store)
        }
}

/// Tables other than positions and bodies are identical.
pub open spec fn same_except_motion(pre: Store, post: Store) -> bool {
    &&& post.collider == pre.collider
    &&& post.children == pre.children
    &&& post.child_of == pre.child_of
    &&& post.killable == pre.killable
    &&& post.hazzard == pre.hazzard
    &&& post.carryable == pre.carryable
    &&& post.controllable == pre.controllable
    &&& post.player == pre.player
    &&& post.cary == pre.cary
    &&& post.exit == pre.exit
    &&& post.sprite == pre.sprite
    &&& post.shooter == pre.shooter
    &&& post.remove_on_impact == pre.remove_on_impact
}

/// One body's turn of the physics pass, from the store as the pass has left
/// it: entity `i`'s velocity takes one gravity step (while gravity applies
/// and the body is above the terminal fall speed), its one-tick movement is
/// resolved against every current non-carried collider sweeping its own and
/// its children's boxes, near-zero velocity snaps to exactly zero, and the
/// resolved movement commits, clamped to the simulated coordinate range.
/// An entity without a position or a body is skipped.
pub open spec fn entity_stepped(pre: Store, post: Store, i: int) -> bool {
    if pre.pos@[i] is Some && pre.physics@[i] is Some {
        let ph = pre.physics@[i]->Some_0;
        let p = pre.pos@[i]->Some_0;
        let vel0 = if ph.gravity && ph.vel.1 > -TERMINAL_VELOCITY {
            Vec2(ph.vel.0, (ph.vel.1 - GRAVITY_PER_TICK) as i64)
        } else {
            ph.vel
        };
        let st0 = MoveState {
            movement: Vec2(
                div_tz(vel0.0 as int, TICKS_PER_SECOND as int) as i64,
                div_tz(vel0.1 as int, TICKS_PER_SECOND as int) as i64,
            ),
            vel: vel0,
            collided: (Horizontal::Neither, Vertical::Neither),
        };
        let stf = spec_resolve_obstacles(swept_boxes(pre, i), obstacles_from(pre, 0), st0);
        &&& post.physics@ == pre.physics@.update(
            i,
            Some(
                Physics {
                    vel: Vec2(spec_snap(stf.vel.0 as int) as i64, spec_snap(stf.vel.1 as int) as i64),
                    collided: stf.collided,
                    ..ph
                },
            ),
        )
        &&& post.pos@ == pre.pos@.update(
            i,
            Some(
                Pos {
                    curr: Vec2(
                        spec_clamp_coord(p.curr.0 + stf.movement.0) as i64,
                        spec_clamp_coord(p.curr.1 + stf.movement.1) as i64,
                    ),
                    prev_interpol: p.prev_interpol,
                },
            ),
        )
        &&& same_except_motion(pre, post)
    } else {
        post == pre
    }
}

/// A chain of stores from `pre` to `post` that steps every id once, in id
/// order.
pub open spec fn is_physics_trace(trace: Seq<Store>, pre: Store, post: Store) -> bool {
    &&& trace.len() == pre.n() + 1
    &&& trace[0] == pre
    &&& trace[pre.n() as int] == post
    &&& forall|i: int| 0 <= i < pre.n() ==> #[trigger] entity_stepped(trace[i], trace[i + 1], i)
}

/// The integration-and-resolution pass relates `pre` to `post`: some chain
/// of stores steps each id in order.
pub open spec fn physics_passed(pre: Store, post: Store) -> bool {
    exists|trace: Seq<Store>| #[trigger] is_physics_trace(trace, pre, post)
}

/// Hierarchy propagation: every child with a position moves to its parent's
/// position plus its fixed offset, keeping its interpolation anchor; every
/// other position, and every other table, is untouched.
pub open spec fn propagated(pre: Store, post: Store) -> bool {
    &&& post.physics == pre.physics
    &&& same_except_motion(pre, post)
    &&& post.pos@.len() == pre.pos@.len()
    &&& forall|i: int|
        0 <= i < pre.n() ==> #[trigger] post.pos@[i] == (if pre.child_of@[i] is Some
            && pre.pos@[i] is Some {
            let co = pre.child_of@[i]->Some_0;
            let pp = pre.pos@[co.parent as int]->Some_0;
            Some(
                Pos {
                    curr: Vec2(
                        (pp.curr.0 + co.offset.0) as i64,
                        (pp.curr.1 + co.offset.1) as i64,
                    ),
                    prev_interpol: pre.pos@[i]->Some_0.prev_interpol,
                },
            )
        } else {
            pre.pos@[i]
        })
}

/// One whole physics tick: the per-id pass, then hierarchy propagation.
pub open spec fn spec_physics_tick(pre: Store, post: Store) -> bool {
    exists|mid: Store| #[trigger] physics_passed(pre, mid) && propagated(mid, post)
}

/// World-space box of the body of entity `i`.
pub open spec fn own_box(s: Store, i: int) -> Bounds {
    s.physics@[i]->Some_0.bounds.spec_translated(s.pos@[i]->Some_0.curr)
}

/// Cached collision boxes of the children in `ids`, each at its own current
/// position, in list order; a child without a position or child record does
/// not sweep.
pub open spec fn swept_of_children(s: Store, ids: Seq<usize>) -> Seq<Bounds>
    decreases ids.len(),
{
    if ids.len() == 0 {
        Seq::empty()
    } else {
        let pre = swept_of_children(s, ids.drop_last());
        let c = ids.last() as int;
        if 0 <= c < s.n() && s.child_of@[c] is Some && s.pos@[c] is Some {
            pre + seq![s.child_of@[c]->Some_0.collision.spec_translated(s.pos@[c]->Some_0.curr)]
        } else {
            pre
        }
    }
}

/// All the boxes entity `i` sweeps: its own body box first, then its
/// children's, so a carried entity rides along in its carrier's resolution
/// and cannot be pushed through terrain on its own.
pub open spec fn swept_boxes(s: Store, i: int) -> Seq<Bounds> {
    seq![own_box(s, i)] + match s.children@[i] {
        Some(ch) => swept_of_children(s, ch.0@),
        None => Seq::empty(),
    }
}

/// World-space boxes the resolver sweeps for one entity: its own body box
/// at its current position, then the cached collision box of each of its
/// children at the child's own current position, in child-list order.
fn gather_swepts(store: &Store, i: usize) -> (r: Vec<Bounds>)
    requires
        store.wf(),
        i < store.n(),
        store.pos@[i as int] is Some,
        store.physics@[i as int] is Some,
    ensures
        r@ == swept_boxes(*store, i as int),
        forall|k: int|
            0 <= k < r@.len() ==> (#[trigger] r@[k]).bounded(
                crate::physics::WORLD_BOX_LIMIT as int,
            ),
{
    let mut r: Vec<Bounds> = Vec::new();
    let p: Pos = match store.pos[i] {
        Some(p) => p,
        None => unreached(),
    };
    let ph: Physics = match store.physics[i] {
        Some(ph) => ph,
        None => unreached(),
    };
    r.push(ph.bounds.translated(p.curr));
    match &store.children[i] {
        Some(ch) => {
            let m = ch.0.len();
            let mut k: usize = 0;
            while k < m
                invariant
                    k <= m,
                    store.wf(),
                    i < store.n(),
                    store.children@[i as int] matches Some(c2) && c2.0@ == ch.0@,
                    m == ch.0@.len(),
                    r@ == seq![own_box(*store, i as int)] + swept_of_children(
                        *store,
                        ch.0@.take(k as int),
                    ),
                    forall|k2: int|
                        0 <= k2 < r@.len() ==> (#[trigger] r@[k2]).bounded(
                            crate::physics::WORLD_BOX_LIMIT as int,
                        ),
                decreases m - k,
            {
                let c = ch.0[k];
                proof {
                    assert(store.children@[i as int] matches Some(c2) && c2.0@[k as int] < store.n());
                    assert(ch.0@.take(k as int + 1).drop_last() =~= ch.0@.take(k as int));
                    assert(ch.0@.take(k as int + 1).last() == ch.0@[k as int]);
                }
                match (&store.child_of[c], &store.pos[c]) {
                    (Some(co), Some(cp)) => {
                        r.push(co.collision.translated(cp.curr));
                        proof {
                            assert(r@ =~= seq![own_box(*store, i as int)] + swept_of_children(
                                *store,
                                ch.0@.take(k as int + 1),
                            ));
                        }
                    },
                    _ => {},
                }
                k += 1;
            }
            proof {
                assert(ch.0@.take(m as int) =~= ch.0@);
                assert(r@ =~= swept_boxes(*store, i as int));
            }
        },
        None => {
            proof {
                assert(r@ =~= swept_boxes(*store, i as int));
            }
        },
    }
    r
}

/// The camera: center of view and view half-size (zoom).
#[derive(Clone, Copy, Debug, PartialEq, Eq, Structural)]
pub struct Camera {
    pub pos: Vec2,
    pub size: i64,
}

impl Camera {
    pub open spec fn wf(self) -> bool {
        self.pos.bounded(CAM_POS_LIMIT as int) && CAM_SIZE_MIN <= self.size <= CAM_SIZE_MAX
    }
}

pub struct World {
    pub state: WorldState,
    pub keys: Keys,
    pub store: Store,
    /// Id of the controllable flyer.
    pub player: usize,
    /// Id of the walking companion.
    pub cary: usize,
    pub camera: Camera,
    /// In-game time in milliseconds.
    pub time_ms: u64,
}

impl World {
    pub open spec fn n(self) -> nat {
        self.store.n()
    }

    /// The tracked flyer exists with its full bundle and is nobody's child.
    pub open spec fn player_ok(self) -> bool {
        let p = self.player as int;
        &&& self.player < self.n()
        &&& self.store.pos@[p] is Some
        &&& self.store.physics@[p] is Some
        &&& self.store.controllable@[p] is Some
        &&& self.store.children@[p] is Some
        &&& self.store.player@[p] is Some
        &&& self.store.sprite@[p] is Some
        &&& self.store.killable@[p] is Some
        &&& self.store.child_of@[p] is None
        &&& self.store.carryable@[p] is None
    }

    /// The tracked companion exists with its full bundle.
    pub open spec fn cary_ok(self) -> bool {
        let c = self.cary as int;
        &&& self.cary < self.n()
        &&& self.cary != self.player
        &&& self.store.pos@[c] is Some
        &&& self.store.physics@[c] is Some
        &&& self.store.cary@[c] is Some
        &&& self.store.carryable@[c] is Some
        &&& self.store.killable@[c] is Some
        &&& self.store.sprite@[c] is Some
    }

    /// Both sides of the carry relation always stand together: the carried
    /// entity (at most one, the one the player's record names) is exactly
    /// the one in the player's child list, its carried flag is set, its
    /// child record points back at the player, and nothing else is a parent
    /// or a child.
    pub open spec fn carry_ok(self) -> bool {
        let p = self.player as int;
        let pl = self.store.player@[p]->Some_0;
        let ch = self.store.children@[p]->Some_0;
        &&& match pl.carrying {
            Some(c) => {
                &&& c < self.n()
                &&& c != self.player
                &&& ch.0@ == seq![c]
                &&& self.store.child_of@[c as int] is Some
            },
            None => ch.0@.len() == 0,
        }
        &&& forall|i: int|
            0 <= i < self.n() ==> ((#[trigger] self.store.child_of@[i]) matches Some(co) ==> {
                &&& co.parent == self.player
                &&& pl.carrying == Some(i as usize)
                &&& self.store.carryable@[i] matches Some(ca) && ca.carried
            })
        &&& forall|i: int|
            0 <= i < self.n() ==> ((#[trigger] self.store.carryable@[i]) matches Some(ca) ==> {
                &&& ca.carried ==> self.store.child_of@[i] is Some
                &&& self.store.physics@[i] is Some
                &&& self.store.pos@[i] is Some
            })
        &&& forall|i: int|
            0 <= i < self.n() && i != p ==> (#[trigger] self.store.children@[i]) is None
    }

    pub open spec fn state_wf(self) -> bool {
        match self.state {
            WorldState::Running => true,
            WorldState::Loss(pos, t) => pos.bounded(crate::components::POS_LIMIT as int) && t
                <= TIMER_CAP_MS,
            WorldState::Victory(pos, t) => pos.bounded(crate::components::POS_LIMIT as int) && t
                <= TIMER_CAP_MS,
        }
    }

    pub open spec fn wf(self) -> bool {
        &&& self.store.wf()
        &&& self.player_ok()
        &&& self.cary_ok()
        &&& self.carry_ok()
        &&& self.camera.wf()
        &&& self.state_wf()
        &&& self.time_ms <= TIMER_CAP_MS
    }

    /// Everything outside the store is unchanged between the two worlds.
    pub open spec fn same_shell(pre: World, post: World) -> bool {
        &&& post.state == pre.state
        &&& post.keys == pre.keys
        &&& post.player == pre.player
        &&& post.cary == pre.cary
        &&& post.camera == pre.camera
        &&& post.time_ms == pre.time_ms
    }

    /// A fresh world: a running level holding only the two tracked entities,
    /// both at the origin, the camera at its smallest zoom.
    pub fn new() -> (w: World)
        ensures
            w.wf(),
            w.n() == 2,
            w.player == 0,
            w.cary == 1,
            w.state == WorldState::Running,
            w.time_ms == 0,
            w.camera == (Camera { pos: Vec2(0, 0), size: CAM_SIZE_MIN }),
            w.keys == (Keys {
                w: KeyHold::Absent,
                a: KeyHold::Absent,
                s: KeyHold::Absent,
                d: KeyHold::Absent,
                j: KeyHold::Absent,
            }),
            // the tracked flyer holds exactly its constructor bundle
            w.store.pos@[0] == Some(Pos { curr: Vec2(0, 0), prev_interpol: Vec2(0, 0) }),
            w.store.player@[0] == Some(Player { flap_cooldown_ms: 0, carrying: None, stamina: STAMINA_MAX }),
            w.store.physics@[0] == Some(
                Physics {
                    bounds: Bounds { min: Vec2(-275i64, -275i64), max: Vec2(275, 275) },
                    vel: Vec2(0, 0),
                    gravity: true,
                    collided: (Horizontal::Neither, Vertical::Neither),
                },
            ),
            w.store.controllable@[0] == Some(
                Controllable {
                    horizontal: Horizontal::Neither,
                    vertical: Vertical::Neither,
                    pick_up: false,
                },
            ),
            w.store.children@[0] matches Some(ch) && ch.0@.len() == 0,
            w.store.killable@[0] == Some(
                Killable {
                    bounds: Bounds { min: Vec2(-275i64, -275i64), max: Vec2(275, 275) },
                    loss_on_death: true,
                },
            ),
            w.store.sprite@[0] == Some(
                Sprite::spec_ani(
                    TexId::PlayerFly,
                    PLAYER_FLY_FRAMES,
                    crate::render::TexAnchor::Center,
                    crate::render::Layer::Foreground,
                    PLAYER_FLY_FRAME_MS,
                    false,
                    0,
                ),
            ),
            w.store.collider@[0] is None && w.store.carryable@[0] is None && w.store.child_of@[0]
                is None && w.store.cary@[0] is None && w.store.hazzard@[0] is None
                && w.store.exit@[0] is None && w.store.shooter@[0] is None
                && w.store.remove_on_impact@[0] is None,
            // the tracked companion holds exactly its constructor bundle
            w.store.pos@[1] == Some(Pos { curr: Vec2(0, 0), prev_interpol: Vec2(0, 0) }),
            w.store.cary@[1] == Some(Cary { walk_right: true }),
            w.store.physics@[1] == Some(
                Physics {
                    bounds: Bounds { min: Vec2(-350i64, 0), max: Vec2(350, 1200) },
                    vel: Vec2(0, 0),
                    gravity: true,
                    collided: (Horizontal::Neither, Vertical::Neither),
                },
            ),
            w.store.killable@[1] == Some(
                Killable {
                    bounds: Bounds { min: Vec2(-150i64, 0), max: Vec2(150, 1200) },
                    loss_on_death: true,
                },
            ),
            w.store.carryable@[1] == Some(
                Carryable {
                    detect_bounds: Bounds { min: Vec2(-600i64, 1000), max: Vec2(600, 2000) },
                    carry_offset: Vec2(0, -1300i64),
                    carried: false,
                },
            ),
            w.store.sprite@[1] == Some(
                Sprite::spec_ani(
                    TexId::CaryWalk,
                    crate::render::CARY_WALK_FRAMES,
                    crate::render::TexAnchor::Bottom,
                    crate::render::Layer::ForegroundPlayer,
                    crate::render::CARY_WALK_FRAME_MS,
                    true,
                    0,
                ),
            ),
            w.store.collider@[1] is None && w.store.children@[1] is None && w.store.child_of@[1]
                is None && w.store.player@[1] is None && w.store.controllable@[1] is None
                && w.store.hazzard@[1] is None && w.store.exit@[1] is None && w.store.shooter@[1]
                is None && w.store.remove_on_impact@[1] is None,
    {
        let mut store = Store::new();
        let pid = store.spawn();
        let (pl, ppos, pph, pctrl, pch, pkl, psp) = make_player(Vec2::zero());
        store.player.set(pid, Some(pl));
        store.pos.set(pid, Some(ppos));
        store.physics.set(pid, Some(pph));
        store.controllable.set(pid, Some(pctrl));
        store.children.set(pid, Some(pch));
        store.killable.set(pid, Some(pkl));
        store.sprite.set(pid, Some(psp));
        let cid = store.spawn();
        let (cy, cpos, cph, ckl, cca, csp) = make_cary(Vec2::zero());
        store.cary.set(cid, Some(cy));
        store.pos.set(cid, Some(cpos));
        store.physics.set(cid, Some(cph));
        store.killable.set(cid, Some(ckl));
        store.carryable.set(cid, Some(cca));
        store.sprite.set(cid, Some(csp));
        World {
            state: WorldState::Running,
            keys: Keys::new(),
            store,
            player: pid,
            cary: cid,
            camera: Camera { pos: Vec2::zero(), size: CAM_SIZE_MIN },
            time_ms: 0,
        }
    }

    /// A key event from the input collaborator.
    pub fn input(&mut self, key: Key, pressed: bool)
        requires
            old(self).wf(),
        ensures
            final(self).wf(),
            final(self).keys == if pressed {
                old(self).keys.spec_set(key, KeyHold::Fresh)
            } else {
                old(self).keys.spec_set(key, KeyHold::Absent)
            },
            final(self).store == old(self).store,
            final(self).state == old(self).state,
            final(self).camera == old(self).camera,
            final(self).time_ms == old(self).time_ms,
            final(self).player == old(self).player,
            final(self).cary == old(self).cary,
    {
        if pressed {
            self.keys.press(key);
        } else {
            self.keys.release(key);
        }
    }

    /// Resets every entity's previous-step position to its current one, so
    /// the motion of the coming tick interpolates from here.
    pub fn update_position_interpol(&mut self)
        requires
            old(self).wf(),
        ensures
            final(self).wf(),
            World::same_shell(*old(self), *final(self)),
            final(self).store.n() == old(self).store.n(),
            interpol_reset(old(self).store, final(self).store),
    {
        let n = self.store.pos.len();
        let mut i: usize = 0;
        while i < n
            invariant
                i <= n,
                n == self.store.n(),
                self.wf(),
                self.store.physics == old(self).store.physics,
                self.store.collider == old(self).store.collider,
                self.store.children == old(self).store.children,
                self.store.child_of == old(self).store.child_of,
                self.store.killable == old(self).store.killable,
                self.store.hazzard == old(self).store.hazzard,
                self.store.carryable == old(self).store.carryable,
                self.store.controllable == old(self).store.controllable,
                self.store.player == old(self).store.player,
                self.store.cary == old(self).store.cary,
                self.store.exit == old(self).store.exit,
                self.store.sprite == old(self).store.sprite,
                self.store.shooter == old(self).store.shooter,
                self.store.remove_on_impact == old(self).store.remove_on_impact,
                self.state == old(self).state,
                self.keys == old(self).keys,
                self.player == old(self).player,
                self.cary == old(self).cary,
                self.camera == old(self).camera,
                self.time_ms == old(self).time_ms,
                forall|k: int|
                    0 <= k < i ==> self.store.pos@[k] == match (#[trigger] old(self).store.pos@[k]) {
                        Some(p) => Some(Pos { curr: p.curr, prev_interpol: p.curr }),
                        None => None,
                    },
                forall|k: int| i <= k < n ==> self.store.pos@[k] == old(self).store.pos@[k],
            decreases n - i,
        {
            let entry: Option<Pos> = self.store.pos[i];
            match entry {
                Some(p) => {
                    self.store.pos.set(i, Some(Pos { curr: p.curr, prev_interpol: p.curr }));
                },
                None => {},
            }
            i += 1;
        }
    }

    /// Nothing with a position and a collider overlaps the box.
    pub open spec fn free_at(s: Store, b: Bounds) -> bool {
        forall|j: int|
            0 <= j < s.n() && s.pos@[j] is Some && s.collider@[j] is Some ==> !(
            #[trigger] crate::physics::obstacle_box(s, j)).spec_overlaps(b)
    }

    /// Whether the box is clear of every static collider (carried or not).
    pub fn is_free(&self, bounds: &Bounds) -> (r: bool)
        requires
            self.wf(),
        ensures
            r == World::free_at(self.store, *bounds),
    {
        let n = self.store.pos.len();
        let mut j: usize = 0;
        while j < n
            invariant
                j <= n,
                n == self.store.n(),
                self.wf(),
                forall|k: int|
                    0 <= k < j && self.store.pos@[k] is Some && self.store.collider@[k] is Some
                        ==> !(#[trigger] crate::physics::obstacle_box(
                        self.store,
                        k,
                    )).spec_overlaps(*bounds),
            decreases n - j,
        {
            let hit: bool = match (&self.store.pos[j], &self.store.collider[j]) {
                (Some(p), Some(c)) => c.bounds.translated(p.curr).overlapps(*bounds),
                _ => false,
            };
            if hit {
                proof {
                    assert(crate::physics::obstacle_box(self.store, j as int).spec_overlaps(
                        *bounds,
                    ));
                }
                return false;
            }
            j += 1;
        }
        true
    }

    /// First entity, in id order from `j` up, whose pickup-detection box at
    /// its current position contains the point.
    pub open spec fn spec_find_pickupable_from(s: Store, ppos: Vec2, j: int) -> Option<usize>
        decreases s.n() - j,
    {
        if j < 0 || j >= s.n() {
            None
        } else if s.pos@[j] is Some && s.carryable@[j] is Some
            && (s.carryable@[j]->Some_0.detect_bounds.spec_translated(
            s.pos@[j]->Some_0.curr,
        )).spec_contains(ppos) {
            Some(j as usize)
        } else {
            World::spec_find_pickupable_from(s, ppos, j + 1)
        }
    }

    /// Current position of the tracked flyer.
    pub open spec fn spec_player_pos(self) -> Vec2 {
        self.store.pos@[self.player as int]->Some_0.curr
    }

    /// Current position of the tracked companion.
    pub open spec fn spec_cary_pos(self) -> Vec2 {
        self.store.pos@[self.cary as int]->Some_0.curr
    }

    /// The first carryable entity whose detection box contains the player's
    /// position, if any; transient absence is an expected outcome, not an
    /// error.
    pub fn find_pickupable(&self) -> (r: Option<usize>)
        requires
            self.wf(),
        ensures
            r == World::spec_find_pickupable_from(self.store, self.spec_player_pos(), 0),
            r matches Some(c) ==> c < self.n() && self.store.carryable@[c as int] is Some
                && self.store.pos@[c as int] is Some && self.store.physics@[c as int] is Some,
    {
        let ppos: Vec2 = match &self.store.pos[self.player] {
            Some(p) => p.curr,
            None => Vec2(0, 0),
        };
        let n = self.store.pos.len();
        let mut j: usize = 0;
        while j < n
            invariant
                j <= n,
                n == self.store.n(),
                self.wf(),
                ppos == self.spec_player_pos(),
                World::spec_find_pickupable_from(self.store, ppos, j as int)
                    == World::spec_find_pickupable_from(self.store, ppos, 0),
            decreases n - j,
        {
            let found: bool = match (&self.store.pos[j], &self.store.carryable[j]) {
                (Some(p), Some(c)) => c.detect_bounds.translated(p.curr).contains(ppos),
                _ => false,
            };
            if found {
                return Some(j);
            }
            j += 1;
        }
        None
    }

    /// Resolves the input snapshot into this tick's intents on the flyer's
    /// control record and consumes the snapshot's transient presses.
    pub fn update_player_input(&mut self)
        requires
            old(self).wf(),
        ensures
            final(self).wf(),
            final(self).state == old(self).state,
            final(self).player == old(self).player,
            final(self).cary == old(self).cary,
            final(self).camera == old(self).camera,
            final(self).time_ms == old(self).time_ms,
            final(self).keys.w == old(self).keys.w.aged(),
            final(self).keys.a == old(self).keys.a.aged(),
            final(self).keys.s == old(self).keys.s.aged(),
            final(self).keys.d == old(self).keys.d.aged(),
            final(self).keys.j == old(self).keys.j.aged(),
            controls_resolved(
                old(self).store,
                final(self).store,
                old(self).player as int,
                old(self).keys,
            ),
    {
        let ctrl = self.keys.resolve();
        let p = self.player;
        self.store.controllable.set(p, Some(ctrl));
    }

    /// Killable `k` has a position and its box overlaps hazard `h`'s box.
    pub open spec fn hazard_overlap(s: Store, k: int, h: int) -> bool {
        &&& s.pos@[h] is Some
        &&& s.hazzard@[h] is Some
        &&& (s.killable@[k]->Some_0.bounds.spec_translated(s.pos@[k]->Some_0.curr)).spec_overlaps(
            s.hazzard@[h]->Some_0.bounds.spec_translated(s.pos@[h]->Some_0.curr),
        )
    }

    /// Killable `k` overlaps some hazard.
    pub open spec fn hazard_hit(s: Store, k: int) -> bool {
        &&& s.pos@[k] is Some
        &&& s.killable@[k] is Some
        &&& exists|h: int| 0 <= h < s.n() && #[trigger] World::hazard_overlap(s, k, h)
    }

    /// Position of the highest-id loss-triggering killable among ids below
    /// `k` that overlaps a hazard, if any: the loss the detector reports.
    pub open spec fn spec_loss_pos_below(s: Store, k: int) -> Option<Vec2>
        decreases k,
    {
        if k <= 0 {
            None
        } else if World::hazard_hit(s, k - 1) && s.killable@[k - 1]->Some_0.loss_on_death {
            Some(s.pos@[k - 1]->Some_0.curr)
        } else {
            World::spec_loss_pos_below(s, k - 1)
        }
    }

    /// Ends the level in a loss if any loss-triggering killable box overlaps
    /// any hazard box, capturing that killable's position with a zero timer;
    /// otherwise the state is untouched. An overlap of a killable that does
    /// not trigger loss is reserved for deaths that should not end the level
    /// and changes nothing.
    pub fn update_hazzards(&mut self)
        requires
            old(self).wf(),
        ensures
            final(self).wf(),
            final(self).store == old(self).store,
            final(self).keys == old(self).keys,
            final(self).player == old(self).player,
            final(self).cary == old(self).cary,
            final(self).camera == old(self).camera,
            final(self).time_ms == old(self).time_ms,
            final(self).state == match World::spec_loss_pos_below(
                old(self).store,
                old(self).store.n() as int,
            ) {
                Some(p) => WorldState::Loss(p, 0),
                None => old(self).state,
            },
    {
        let n = self.store.pos.len();
        let mut loss: Option<Vec2> = None;
        let mut k: usize = 0;
        while k < n
            invariant
                k <= n,
                n == self.store.n(),
                self.wf(),
                loss == World::spec_loss_pos_below(self.store, k as int),
                loss matches Some(p) ==> p.bounded(crate::components::POS_LIMIT as int),
            decreases n - k,
        {
            let kill: Option<Killable> = self.store.killable[k];
            let kpos: Option<Pos> = self.store.pos[k];
            match (kpos, kill) {
                (Some(p), Some(ki)) => {
                    let kbox = ki.bounds.translated(p.curr);
                    let mut hit: bool = false;
                    let mut h: usize = 0;
                    while h < n
                        invariant
                            h <= n,
                            n == self.store.n(),
                            self.wf(),
                            k < n,
                            self.store.pos@[k as int] == Some(p),
                            self.store.killable@[k as int] == Some(ki),
                            kbox == ki.bounds.spec_translated(p.curr),
                            hit ==> World::hazard_hit(self.store, k as int),
                            !hit ==> forall|h2: int|
                                0 <= h2 < h ==> !#[trigger] World::hazard_overlap(
                                    self.store,
                                    k as int,
                                    h2,
                                ),
                        decreases n - h,
                    {
                        let overl: bool = match (&self.store.pos[h], &self.store.hazzard[h]) {
                            (Some(hp), Some(hz)) => kbox.overlapps(
                                hz.bounds.translated(hp.curr),
                            ),
                            _ => false,
                        };
                        if overl {
                            proof {
                                assert(World::hazard_overlap(self.store, k as int, h as int));
                            }
                            hit = true;
                        }
                        h += 1;
                    }
                    if hit && ki.loss_on_death {
                        loss = Some(p.curr);
                    } else {
                        proof {
                            if !hit {
                                assert(forall|h2: int|
                                    0 <= h2 < n ==> !#[trigger] World::hazard_overlap(
                                        self.store,
                                        k as int,
                                        h2,
                                    ));
                                assert(!World::hazard_hit(self.store, k as int));
                            }
                        }
                    }
                },
                _ => {},
            }
            k += 1;
        }
        match loss {
            Some(p) => {
                self.state = WorldState::Loss(p, 0);
            },
            None => {},
        }
    }

    /// Some exit box contains the point.
    pub open spec fn spec_exit_reached(s: Store, cpos: Vec2) -> bool {
        exists|j: int|
            0 <= j < s.n() && s.pos@[j] is Some && s.exit@[j] is Some && (
            #[trigger] s.exit@[j]->Some_0.0.spec_translated(s.pos@[j]->Some_0.curr)).spec_contains(
                cpos,
            )
    }

    /// Ends the level in victory, capturing the companion's position with a
    /// zero timer, exactly when the companion's position lies inside some
    /// exit box; otherwise the state is untouched.
    pub fn update_exits(&mut self)
        requires
            old(self).wf(),
        ensures
            final(self).wf(),
            final(self).store == old(self).store,
            final(self).keys == old(self).keys,
            final(self).player == old(self).player,
            final(self).cary == old(self).cary,
            final(self).camera == old(self).camera,
            final(self).time_ms == old(self).time_ms,
            final(self).state == if World::spec_exit_reached(
                old(self).store,
                old(self).spec_cary_pos(),
            ) {
                WorldState::Victory(old(self).spec_cary_pos(), 0)
            } else {
                old(self).state
            },
    {
        let cpos: Vec2 = match &self.store.pos[self.cary] {
            Some(p) => p.curr,
            None => Vec2(0, 0),
        };
        let n = self.store.pos.len();
        let mut reached: bool = false;
        let mut j: usize = 0;
        while j < n
            invariant
                j <= n,
                n == self.store.n(),
                self.wf(),
                cpos == self.spec_cary_pos(),
                reached ==> World::spec_exit_reached(self.store, cpos),
                !reached ==> forall|k: int|
                    0 <= k < j && self.store.pos@[k] is Some && self.store.exit@[k] is Some ==> !(
                    #[trigger] self.store.exit@[k]->Some_0.0.spec_translated(
                        self.store.pos@[k]->Some_0.curr,
                    )).spec_contains(cpos),
            decreases n - j,
        {
            let inside: bool = match (&self.store.pos[j], &self.store.exit[j]) {
                (Some(p), Some(e)) => e.0.translated(p.curr).contains(cpos),
                _ => false,
            };
            if inside {
                reached = true;
            }
            j += 1;
        }
        if reached {
            self.state = WorldState::Victory(cpos, 0);
        }
    }

    /// One tick of the flyer's own behavior: the
    /// vertical intent picks flap, idle fall or dive (gated by the current
    /// animation being finished), horizontal intent accelerates toward the
    /// speed cap, stamina drains while carrying and regenerates otherwise,
    /// and then the carry state machine runs: a pickup action while carrying
    /// — or stamina reaching exactly zero — drops the carried entity within
    /// this same tick, and a pickup action while free picks up the first
    /// carryable in reach.
    pub fn update_player(&mut self)
        requires
            old(self).wf(),
        ensures
            final(self).wf(),
            World::same_shell(*old(self), *final(self)),
            final(self).store.n() == old(self).store.n(),
            player_ticked(old(self).store, final(self).store, old(self).player as int),
            // an empty bar forced a drop within this very tick
            ({
                let npl = final(self).store.player@[old(self).player as int]->Some_0;
                npl.carrying is Some ==> npl.stamina > 0
            }),
    {
        let p = self.player;
        let ctrl: Controllable = match self.store.controllable[p] {
            Some(c) => c,
            None => unreached(),
        };
        let candidate = self.find_pickupable();
        let pl: Player = match self.store.player[p] {
            Some(pl) => pl,
            None => unreached(),
        };
        let ph: Physics = match self.store.physics[p] {
            Some(ph) => ph,
            None => unreached(),
        };
        let sp: Sprite = match self.store.sprite[p] {
            Some(sp) => sp,
            None => unreached(),
        };
        let vs = player_motion(ph.vel, ctrl.vertical, ctrl.horizontal, sp);
        self.store.physics.set(p, Some(Physics { vel: vs.0, ..ph }));
        self.store.sprite.set(p, Some(vs.1));
        let st2 = stamina_step(pl.stamina, pl.carrying.is_some());
        let fc = if pl.flap_cooldown_ms >= TICK_MS {
            pl.flap_cooldown_ms - TICK_MS
        } else {
            0
        };
        self.store.player.set(
            p,
            Some(Player { flap_cooldown_ms: fc, carrying: pl.carrying, stamina: st2 }),
        );
        match pl.carrying {
            Some(_) => {
                if ctrl.pick_up || st2 == 0 {
                    self.drop_carried();
                }
            },
            None => {
                if ctrl.pick_up {
                    match candidate {
                        Some(c) => {
                            self.pick_up_entity(c);
                        },
                        None => {},
                    }
                }
            },
        }
    }

    /// One tick of physics for every body, in id order: gravity, proposed
    /// movement of one tick of velocity, axis-separated resolution of that
    /// movement (sweeping the body's own box and its carried children's
    /// cached boxes) against every non-carried collider as the pass has left
    /// them so far, a snap of near-zero velocity to zero, and the commit of
    /// the resolved movement, clamped to the simulated coordinate range.
    /// Hierarchy propagation then pins every child to its parent.
    pub fn update_physics(&mut self)
        requires
            old(self).wf(),
        ensures
            final(self).wf(),
            World::same_shell(*old(self), *final(self)),
            final(self).store.n() == old(self).store.n(),
            final(self).store.collider == old(self).store.collider,
            final(self).store.children == old(self).store.children,
            final(self).store.child_of == old(self).store.child_of,
            final(self).store.killable == old(self).store.killable,
            final(self).store.hazzard == old(self).store.hazzard,
            final(self).store.carryable == old(self).store.carryable,
            final(self).store.controllable == old(self).store.controllable,
            final(self).store.player == old(self).store.player,
            final(self).store.cary == old(self).store.cary,
            final(self).store.exit == old(self).store.exit,
            final(self).store.sprite == old(self).store.sprite,
            final(self).store.shooter == old(self).store.shooter,
            final(self).store.remove_on_impact == old(self).store.remove_on_impact,
            // bodies keep their boxes and gravity flags, and nothing appears
            // or vanishes
            forall|i: int|
                0 <= i < old(self).n() ==> ((#[trigger] final(self).store.physics@[i]) matches Some(
                    np,
                ) <==> old(self).store.physics@[i] is Some),
            forall|i: int|
                0 <= i < old(self).n() ==> ((#[trigger] final(self).store.physics@[i]) matches Some(
                    np,
                ) ==> np.bounds == old(self).store.physics@[i]->Some_0.bounds && np.gravity == old(
                    self,
                ).store.physics@[i]->Some_0.gravity),
            forall|i: int|
                0 <= i < old(self).n() ==> ((#[trigger] final(self).store.pos@[i]) is Some <==> old(
                    self,
                ).store.pos@[i] is Some),
            // interpolation anchors survive the tick's motion
            forall|i: int|
                0 <= i < old(self).n() ==> ((#[trigger] final(self).store.pos@[i]) matches Some(np)
                    ==> np.prev_interpol == old(self).store.pos@[i]->Some_0.prev_interpol),
            // a body at rest, under no gravity and carried by nobody, stays
            // exactly where it was, within the committed coordinate range
            forall|i: int|
                0 <= i < old(self).n() ==> ((#[trigger] old(self).store.physics@[i]) matches Some(
                    ph,
                ) ==> (old(self).store.pos@[i] matches Some(p) ==> ((ph.vel == (Vec2(0, 0))
                    && !ph.gravity && old(self).store.child_of@[i] is None && p.curr.bounded(
                    COORD_LIMIT as int,
                )) ==> final(self).store.pos@[i] == old(self).store.pos@[i]))),
            // hierarchy propagation: every child with a position sits at its
            // parent's position plus its fixed offset
            forall|i: int|
                0 <= i < old(self).n() ==> ((#[trigger] final(self).store.child_of@[i]) matches
                Some(co) ==> (final(self).store.pos@[i] is Some ==> {
                    let np = final(self).store.pos@[i]->Some_0;
                    let pp = final(self).store.pos@[co.parent as int]->Some_0;
                    np.curr.0 == pp.curr.0 + co.offset.0 && np.curr.1 == pp.curr.1 + co.offset.1
                })),
            // the full tick: each body stepped once, in id order, against the
            // store as the pass has left it, then children propagated
            spec_physics_tick(old(self).store, final(self).store),
    {
        let n = self.store.pos.len();
        let ghost mut trace: Seq<Store> = seq![self.store];
        let mut i: usize = 0;
        while i < n
            invariant
                i <= n,
                n == self.store.n(),
                self.wf(),
                World::same_shell(*old(self), *self),
                self.store.collider == old(self).store.collider,
                self.store.children == old(self).store.children,
                self.store.child_of == old(self).store.child_of,
                self.store.killable == old(self).store.killable,
                self.store.hazzard == old(self).store.hazzard,
                self.store.carryable == old(self).store.carryable,
                self.store.controllable == old(self).store.controllable,
                self.store.player == old(self).store.player,
                self.store.cary == old(self).store.cary,
                self.store.exit == old(self).store.exit,
                self.store.sprite == old(self).store.sprite,
                self.store.shooter == old(self).store.shooter,
                self.store.remove_on_impact == old(self).store.remove_on_impact,
                forall|k: int|
                    0 <= k < n ==> ((#[trigger] self.store.physics@[k]) matches Some(np) <==> old(
                        self,
                    ).store.physics@[k] is Some),
                forall|k: int|
                    0 <= k < n ==> ((#[trigger] self.store.physics@[k]) matches Some(np)
                        ==> np.bounds == old(self).store.physics@[k]->Some_0.bounds && np.gravity
                        == old(self).store.physics@[k]->Some_0.gravity),
                forall|k: int|
                    0 <= k < n ==> ((#[trigger] self.store.pos@[k]) is Some <==> old(
                        self,
                    ).store.pos@[k] is Some),
                forall|k: int|
                    0 <= k < n ==> ((#[trigger] self.store.pos@[k]) matches Some(np)
                        ==> np.prev_interpol == old(self).store.pos@[k]->Some_0.prev_interpol),
                forall|k: int| i <= k < n ==> self.store.pos@[k] == old(self).store.pos@[k],
                forall|k: int| i <= k < n ==> self.store.physics@[k] == old(self).store.physics@[k],
                forall|k: int|
                    0 <= k < i ==> ((#[trigger] self.store.pos@[k]) matches Some(p) ==> (
                    self.store.physics@[k] is Some ==> p.curr.bounded(COORD_LIMIT as int))),
                forall|k: int|
                    0 <= k < i ==> ((#[trigger] old(self).store.physics@[k]) matches Some(ph)
                        ==> (old(self).store.pos@[k] matches Some(p) ==> ((ph.vel == (Vec2(0, 0))
                        && !ph.gravity && old(self).store.child_of@[k] is None && p.curr.bounded(
                        COORD_LIMIT as int,
                    )) ==> self.store.pos@[k] == old(self).store.pos@[k]))),
                trace.len() == i + 1,
                trace[0] == old(self).store,
                trace[i as int] == self.store,
                forall|k: int| 0 <= k < i ==> #[trigger] entity_stepped(trace[k], trace[k + 1], k),
            decreases n - i,
        {
            let ghost pre = self.store;
            let has_body: bool = match (&self.store.pos[i], &self.store.physics[i]) {
                (Some(_), Some(_)) => true,
                _ => false,
            };
            if has_body {
                let p: Pos = match self.store.pos[i] {
                    Some(p) => p,
                    None => unreached(),
                };
                let ph: Physics = match self.store.physics[i] {
                    Some(ph) => ph,
                    None => unreached(),
                };
                let vel0 = if ph.gravity && ph.vel.1 > -TERMINAL_VELOCITY {
                    Vec2(ph.vel.0, ph.vel.1 - GRAVITY_PER_TICK)
                } else {
                    ph.vel
                };
                let movement = tick_movement(vel0);
                let st0 = MoveState {
                    movement,
                    vel: vel0,
                    collided: (Horizontal::Neither, Vertical::Neither),
                };
                let swepts = gather_swepts(&self.store, i);
                let stf = resolve_movement(&self.store, &swepts, st0);
                proof {
                    if ph.vel == (Vec2(0, 0)) && !ph.gravity {
                        assert(st0.movement == (Vec2(0, 0)));
                        crate::physics::lemma_resolve_at_rest(
                            swepts@,
                            obstacles_from(self.store, 0),
                            st0,
                        );
                    }
                }
                let nv = snap_vel(stf.vel);
                self.store.physics.set(
                    i,
                    Some(Physics { vel: nv, collided: stf.collided, ..ph }),
                );
                let np = Vec2(
                    clamp_coord(p.curr.0 + stf.movement.0),
                    clamp_coord(p.curr.1 + stf.movement.1),
                );
                self.store.pos.set(i, Some(Pos { curr: np, prev_interpol: p.prev_interpol }));
                proof {
                    assert(entity_stepped(pre, self.store, i as int));
                }
            } else {
                proof {
                    assert(entity_stepped(pre, self.store, i as int));
                }
            }
            proof {
                trace = trace.push(self.store);
            }
            i += 1;
        }
        let ghost mid = self.store;
        proof {
            assert(is_physics_trace(trace, old(self).store, mid));
            assert(physics_passed(old(self).store, mid));
        }
        self.propagate_children();
        proof {
            assert(propagated(mid, self.store));
            assert(spec_physics_tick(old(self).store, self.store));
        }
    }

    /// Forces every child's position to its parent's position plus the
    /// child's fixed offset. This runs after all bodies are resolved, so a
    /// carried entity never lags a tick behind its carrier, and children are
    /// never themselves subject to gravity or collision here.
    fn propagate_children(&mut self)
        requires
            old(self).wf(),
            old(self).store.pos@[old(self).player as int]->Some_0.curr.bounded(COORD_LIMIT as int),
        ensures
            final(self).wf(),
            World::same_shell(*old(self), *final(self)),
            final(self).store.n() == old(self).store.n(),
            final(self).store.physics == old(self).store.physics,
            final(self).store.collider == old(self).store.collider,
            final(self).store.children == old(self).store.children,
            final(self).store.child_of == old(self).store.child_of,
            final(self).store.killable == old(self).store.killable,
            final(self).store.hazzard == old(self).store.hazzard,
            final(self).store.carryable == old(self).store.carryable,
            final(self).store.controllable == old(self).store.controllable,
            final(self).store.player == old(self).store.player,
            final(self).store.cary == old(self).store.cary,
            final(self).store.exit == old(self).store.exit,
            final(self).store.sprite == old(self).store.sprite,
            final(self).store.shooter == old(self).store.shooter,
            final(self).store.remove_on_impact == old(self).store.remove_on_impact,
            forall|i: int|
                0 <= i < old(self).n() && old(self).store.child_of@[i] is None ==> (
                #[trigger] final(self).store.pos@[i]) == old(self).store.pos@[i],
            forall|i: int|
                0 <= i < old(self).n() ==> ((#[trigger] final(self).store.pos@[i]) is Some <==> old(
                    self,
                ).store.pos@[i] is Some),
            forall|i: int|
                0 <= i < old(self).n() ==> ((#[trigger] final(self).store.pos@[i]) matches Some(np)
                    ==> np.prev_interpol == old(self).store.pos@[i]->Some_0.prev_interpol),
            forall|i: int|
                0 <= i < old(self).n() ==> ((#[trigger] old(self).store.child_of@[i]) matches Some(
                    co,
                ) ==> (old(self).store.pos@[i] is Some ==> {
                    let np = final(self).store.pos@[i]->Some_0;
                    let pp = old(self).store.pos@[co.parent as int]->Some_0;
                    np.curr.0 == pp.curr.0 + co.offset.0 && np.curr.1 == pp.curr.1 + co.offset.1
                })),
            propagated(old(self).store, final(self).store),
    {
        let n = self.store.pos.len();
        let mut i: usize = 0;
        while i < n
            invariant
                i <= n,
                n == self.store.n(),
                self.wf(),
                old(self).wf(),
                old(self).store.pos@[old(self).player as int]->Some_0.curr.bounded(
                    COORD_LIMIT as int,
                ),
                World::same_shell(*old(self), *self),
                self.store.physics == old(self).store.physics,
                self.store.collider == old(self).store.collider,
                self.store.children == old(self).store.children,
                self.store.child_of == old(self).store.child_of,
                self.store.killable == old(self).store.killable,
                self.store.hazzard == old(self).store.hazzard,
                self.store.carryable == old(self).store.carryable,
                self.store.controllable == old(self).store.controllable,
                self.store.player == old(self).store.player,
                self.store.cary == old(self).store.cary,
                self.store.exit == old(self).store.exit,
                self.store.sprite == old(self).store.sprite,
                self.store.shooter == old(self).store.shooter,
                self.store.remove_on_impact == old(self).store.remove_on_impact,
                forall|k: int|
                    0 <= k < n && old(self).store.child_of@[k] is None ==> (
                    #[trigger] self.store.pos@[k]) == old(self).store.pos@[k],
                forall|k: int|
                    0 <= k < n ==> ((#[trigger] self.store.pos@[k]) is Some <==> old(
                        self,
                    ).store.pos@[k] is Some),
                forall|k: int|
                    0 <= k < n ==> ((#[trigger] self.store.pos@[k]) matches Some(np)
                        ==> np.prev_interpol == old(self).store.pos@[k]->Some_0.prev_interpol),
                forall|k: int| i <= k < n ==> self.store.pos@[k] == old(self).store.pos@[k],
                forall|k: int|
                    0 <= k < i ==> ((#[trigger] old(self).store.child_of@[k]) matches Some(co)
                        ==> (old(self).store.pos@[k] is Some ==> {
                        let np = self.store.pos@[k]->Some_0;
                        let pp = old(self).store.pos@[co.parent as int]->Some_0;
                        np.curr.0 == pp.curr.0 + co.offset.0 && np.curr.1 == pp.curr.1
                            + co.offset.1
                    })),
                forall|k: int|
                    0 <= k < i ==> #[trigger] self.store.pos@[k] == (if old(
                        self,
                    ).store.child_of@[k] is Some && old(self).store.pos@[k] is Some {
                        let co = old(self).store.child_of@[k]->Some_0;
                        let pp = old(self).store.pos@[co.parent as int]->Some_0;
                        Some(
                            Pos {
                                curr: Vec2(
                                    (pp.curr.0 + co.offset.0) as i64,
                                    (pp.curr.1 + co.offset.1) as i64,
                                ),
                                prev_interpol: old(self).store.pos@[k]->Some_0.prev_interpol,
                            },
                        )
                    } else {
                        old(self).store.pos@[k]
                    }),
            decreases n - i,
        {
            let is_child: bool = match (&self.store.child_of[i], &self.store.pos[i]) {
                (Some(_), Some(_)) => true,
                _ => false,
            };
            if is_child {
                let co: ChildOf = match self.store.child_of[i] {
                    Some(co) => co,
                    None => unreached(),
                };
                let p: Pos = match self.store.pos[i] {
                    Some(p) => p,
                    None => unreached(),
                };
                let pp: Pos = match self.store.pos[co.parent] {
                    Some(pp) => pp,
                    None => unreached(),
                };
                proof {
                    assert(pp == old(self).store.pos@[old(self).player as int]->Some_0);
                }
                let np = Vec2(pp.curr.0 + co.offset.0, pp.curr.1 + co.offset.1);
                self.store.pos.set(i, Some(Pos { curr: np, prev_interpol: p.prev_interpol }));
            }
            i += 1;
        }
    }

    /// The companion's jump decision at a wall: the first of three probe
    /// boxes ahead of it — at short-hop, low-jump and full-jump heights —
    /// that is clear of all colliders picks its impulse; none clear means
    /// turn around.
    pub open spec fn spec_cary_probe(s: Store, base: Bounds, right: bool) -> Option<i64> {
        let off: i64 = if right {
            200
        } else {
            -200i64
        };
        if World::free_at(s, base.spec_translated(Vec2(off, 100))) {
            Some(HOP_SPEED)
        } else if World::free_at(s, base.spec_translated(Vec2(off, 1100))) {
            Some(JUMP_SPEED_LOW)
        } else if World::free_at(s, base.spec_translated(Vec2(off, 2100))) {
            Some(JUMP_SPEED)
        } else {
            None
        }
    }

    /// One tick of the companion's patrol behavior, while it is not being
    /// carried: it walks at its fixed speed in its facing direction whenever
    /// grounded or still rising; on a grounded collision against its leading
    /// edge it probes the three forward-and-up boxes and takes the first
    /// clear jump, or, with no clear probe at any height, reverses its
    /// facing (mirroring its sprite) without jumping.
    pub fn update_cary(&mut self)
        requires
            old(self).wf(),
        ensures
            final(self).wf(),
            World::same_shell(*old(self), *final(self)),
            final(self).store.n() == old(self).store.n(),
            cary_ticked(old(self).store, final(self).store, old(self).cary as int),
    {
        let c = self.cary;
        let ca: Carryable = match self.store.carryable[c] {
            Some(ca) => ca,
            None => unreached(),
        };
        if ca.carried {
            return ;
        }
        let cy: Cary = match self.store.cary[c] {
            Some(cy) => cy,
            None => unreached(),
        };
        let ph: Physics = match self.store.physics[c] {
            Some(ph) => ph,
            None => unreached(),
        };
        let cpos: Pos = match self.store.pos[c] {
            Some(p) => p,
            None => unreached(),
        };
        let grounded = ph.collided.1 == Vertical::Down;
        let mut vel = ph.vel;
        if grounded || ph.vel.1 > 0 {
            vel = Vec2(
                if cy.walk_right {
                    WALK_SPEED
                } else {
                    -WALK_SPEED
                },
                vel.1,
            );
        }
        let leading = grounded && ((ph.collided.0 == Horizontal::Left && !cy.walk_right) || (
        ph.collided.0 == Horizontal::Right && cy.walk_right));
        if leading {
            let off: i64 = if cy.walk_right {
                200
            } else {
                -200
            };
            let base = ph.bounds.translated(cpos.curr);
            if self.is_free(&base.translated(Vec2(off, 100))) {
                self.store.physics.set(c, Some(Physics { vel: Vec2(vel.0, HOP_SPEED), ..ph }));
            } else if self.is_free(&base.translated(Vec2(off, 1100))) {
                self.store.physics.set(
                    c,
                    Some(Physics { vel: Vec2(vel.0, JUMP_SPEED_LOW), ..ph }),
                );
            } else if self.is_free(&base.translated(Vec2(off, 2100))) {
                self.store.physics.set(c, Some(Physics { vel: Vec2(vel.0, JUMP_SPEED), ..ph }));
            } else {
                let sp: Sprite = match self.store.sprite[c] {
                    Some(sp) => sp,
                    None => unreached(),
                };
                self.store.physics.set(c, Some(Physics { vel, ..ph }));
                self.store.sprite.set(c, Some(Sprite { mirror: cy.walk_right, ..sp }));
                self.store.cary.set(c, Some(Cary { walk_right: !cy.walk_right }));
            }
        } else {
            self.store.physics.set(c, Some(Physics { vel, ..ph }));
        }
    }

    /// One tick of camera framing: the camera eases toward a point half-way
    /// from the player toward the companion (the divergence clamped to
    /// margins proportional to the zoom), and the zoom grows when the
    /// companion strays beyond a near threshold from that target —
    /// horizontal distance compressed threefold — and shrinks inside a
    /// farther one, both eased and held within the zoom range.
    pub open spec fn spec_camera_step(cam: Camera, ppos: Vec2, cpos: Vec2) -> Camera {
        let mx = div_tz(155 * cam.size, 100);
        let xd = if cpos.0 - ppos.0 < -mx {
            -mx
        } else if cpos.0 - ppos.0 > mx {
            mx
        } else {
            cpos.0 - ppos.0
        };
        let my = div_tz(125 * cam.size, 100);
        let yd = if cpos.1 - ppos.1 < -my {
            -my
        } else if cpos.1 - ppos.1 > my {
            my
        } else {
            cpos.1 - ppos.1
        };
        let tx = ppos.0 + div_tz(xd, 2);
        let ty = ppos.1 + div_tz(yd, 2);
        let nx = cam.pos.0 + div_tz((tx - cam.pos.0) * 6, 100);
        let ny = cam.pos.1 + div_tz((ty - cam.pos.1) * 6, 100);
        let dx = if cpos.0 - tx >= 0 {
            cpos.0 - tx
        } else {
            -(cpos.0 - tx)
        };
        let dy = if cpos.1 - ty >= 0 {
            cpos.1 - ty
        } else {
            -(cpos.1 - ty)
        };
        let zd = if div_tz(dx, 3) >= dy {
            div_tz(dx, 3)
        } else {
            dy
        };
        let grow = zd + 800;
        let shrink = zd + 4000;
        let ns = if grow > cam.size {
            let eased = cam.size + div_tz((grow - cam.size) * 24, 1000);
            if eased > CAM_SIZE_MAX {
                CAM_SIZE_MAX as int
            } else {
                eased
            }
        } else if shrink < cam.size {
            let eased = cam.size + div_tz((shrink - cam.size) * 24, 1000);
            if eased < CAM_SIZE_MIN {
                CAM_SIZE_MIN as int
            } else {
                eased
            }
        } else {
            cam.size as int
        };
        Camera { pos: Vec2(nx as i64, ny as i64), size: ns as i64 }
    }

    #[verifier::rlimit(100)]
    pub fn update_camera(&mut self)
        requires
            old(self).wf(),
        ensures
            final(self).wf(),
            final(self).store == old(self).store,
            final(self).state == old(self).state,
            final(self).keys == old(self).keys,
            final(self).player == old(self).player,
            final(self).cary == old(self).cary,
            final(self).time_ms == old(self).time_ms,
            final(self).camera == World::spec_camera_step(
                old(self).camera,
                old(self).spec_player_pos(),
                old(self).spec_cary_pos(),
            ),
    {
        let ppos: Vec2 = match self.store.pos[self.player] {
            Some(p) => p.curr,
            None => unreached(),
        };
        let cpos: Vec2 = match self.store.pos[self.cary] {
            Some(p) => p.curr,
            None => unreached(),
        };
        let cam = self.camera;
        let mx = div_trunc(155 * cam.size, 100);
        proof {
            lemma_div_tz_shrinks(155 * cam.size as int, 100);
        }
        let xd = if cpos.0 - ppos.0 < -mx {
            -mx
        } else if cpos.0 - ppos.0 > mx {
            mx
        } else {
            cpos.0 - ppos.0
        };
        let my = div_trunc(125 * cam.size, 100);
        proof {
            lemma_div_tz_shrinks(125 * cam.size as int, 100);
        }
        let yd = if cpos.1 - ppos.1 < -my {
            -my
        } else if cpos.1 - ppos.1 > my {
            my
        } else {
            cpos.1 - ppos.1
        };
        proof {
            lemma_div_tz_shrinks(xd as int, 2);
            lemma_div_tz_shrinks(yd as int, 2);
        }
        let tx = ppos.0 + div_trunc(xd, 2);
        let ty = ppos.1 + div_trunc(yd, 2);
        proof {
            lemma_frac_shrinks(tx - cam.pos.0, 6, 100);
            lemma_frac_shrinks(ty - cam.pos.1, 6, 100);
        }
        let nx = cam.pos.0 + mul_frac(tx - cam.pos.0, 6, 100);
        let ny = cam.pos.1 + mul_frac(ty - cam.pos.1, 6, 100);
        let dx = if cpos.0 - tx >= 0 {
            cpos.0 - tx
        } else {
            -(cpos.0 - tx)
        };
        let dy = if cpos.1 - ty >= 0 {
            cpos.1 - ty
        } else {
            -(cpos.1 - ty)
        };
        proof {
            lemma_div_tz_shrinks(dx as int, 3);
        }
        let zx = div_trunc(dx, 3);
        let zd = if zx >= dy {
            zx
        } else {
            dy
        };
        let grow = zd + 800;
        let shrink = zd + 4000;
        let ns: i64 = if grow > cam.size {
            proof {
                lemma_frac_shrinks(grow - cam.size, 24, 1000);
            }
            let eased = cam.size + mul_frac(grow - cam.size, 24, 1000);
            if eased > CAM_SIZE_MAX {
                CAM_SIZE_MAX
            } else {
                eased
            }
        } else if shrink < cam.size {
            proof {
                lemma_frac_shrinks(shrink - cam.size, 24, 1000);
            }
            let eased = cam.size + mul_frac(shrink - cam.size, 24, 1000);
            if eased < CAM_SIZE_MIN {
                CAM_SIZE_MIN
            } else {
                eased
            }
        } else {
            cam.size
        };
        self.camera = Camera { pos: Vec2(nx, ny), size: ns };
    }

    /// One simulation tick. While the level runs, the systems execute in
    /// their required order: interpolation anchors, in-game time, input
    /// resolution, player control, companion patrol, physics and hierarchy
    /// propagation, hazard then exit detection, animation timers, camera.
    /// An ended level is absorbing: only its timer advances.
    pub fn update(&mut self)
        requires
            old(self).wf(),
        ensures
            final(self).wf(),
            final(self).player == old(self).player,
            final(self).cary == old(self).cary,
            final(self).store.n() == old(self).store.n(),
            match old(self).state {
                WorldState::Loss(p, t) => {
                    &&& final(self).state == WorldState::Loss(
                        p,
                        (if t + TICK_MS <= TIMER_CAP_MS {
                            t + TICK_MS
                        } else {
                            t as int
                        }) as u64,
                    )
                    &&& final(self).store == old(self).store
                    &&& final(self).camera == old(self).camera
                    &&& final(self).keys == old(self).keys
                    &&& final(self).time_ms == old(self).time_ms
                },
                WorldState::Victory(p, t) => {
                    &&& final(self).state == WorldState::Victory(
                        p,
                        (if t + TICK_MS <= TIMER_CAP_MS {
                            t + TICK_MS
                        } else {
                            t as int
                        }) as u64,
                    )
                    &&& final(self).store == old(self).store
                    &&& final(self).camera == old(self).camera
                    &&& final(self).keys == old(self).keys
                    &&& final(self).time_ms == old(self).time_ms
                },
                WorldState::Running => {
                    &&& final(self).time_ms == (if old(self).time_ms + TICK_MS <= TIMER_CAP_MS {
                        old(self).time_ms + TICK_MS
                    } else {
                        old(self).time_ms as int
                    })
                    // carrying still implies stamina left: an empty bar
                    // forced a drop within this very tick
                    &&& ({
                        let npl = final(self).store.player@[old(self).player as int]->Some_0;
                        npl.carrying is Some ==> npl.stamina > 0
                    })
                    // every carried entity sits exactly at its parent's
                    // position plus its offset when the tick ends
                    &&& forall|i: int|
                        0 <= i < old(self).n() ==> ((
                        #[trigger] final(self).store.child_of@[i]) matches Some(co) ==> (final(self).store.pos@[i] is Some ==> {
                            let np = final(self).store.pos@[i]->Some_0;
                            let pp = final(self).store.pos@[co.parent as int]->Some_0;
                            np.curr.0 == pp.curr.0 + co.offset.0 && np.curr.1 == pp.curr.1
                                + co.offset.1
                        }))
                    // the tick ends in a loss exactly when a loss-triggering
                    // killable ended it overlapping a hazard, overridden by
                    // a victory exactly when the companion ended it inside
                    // an exit
                    &&& ({
                        let s = final(self).store;
                        let cpos = s.pos@[old(self).cary as int]->Some_0.curr;
                        let after_hazards = match World::spec_loss_pos_below(s, s.n() as int) {
                            Some(p) => WorldState::Loss(p, 0),
                            None => WorldState::Running,
                        };
                        final(self).state == if World::spec_exit_reached(s, cpos) {
                            WorldState::Victory(cpos, 0)
                        } else {
                            after_hazards
                        }
                    })
                    // the camera eased once toward the pair's end-of-tick
                    // positions
                    &&& final(self).camera == World::spec_camera_step(
                        old(self).camera,
                        final(self).store.pos@[old(self).player as int]->Some_0.curr,
                        final(self).store.pos@[old(self).cary as int]->Some_0.curr,
                    )
                    // the input snapshot was consumed: fresh presses went
                    // stale, held keys persist
                    &&& final(self).keys.w == old(self).keys.w.aged()
                    &&& final(self).keys.a == old(self).keys.a.aged()
                    &&& final(self).keys.s == old(self).keys.s.aged()
                    &&& final(self).keys.d == old(self).keys.d.aged()
                    &&& final(self).keys.j == old(self).keys.j.aged()
                    // the store went through every system, in order
                    &&& spec_running_tick(*old(self), *final(self))
                },
            },
    {
        match self.state {
            WorldState::Running => {
                self.update_position_interpol();
                let ghost s_reset = self.store;
                self.time_ms = if self.time_ms <= TIMER_CAP_MS - TICK_MS {
                    self.time_ms + TICK_MS
                } else {
                    self.time_ms
                };
                self.update_player_input();
                let ghost s_control = self.store;
                self.update_player();
                let ghost s_player = self.store;
                self.update_cary();
                let ghost s_cary = self.store;
                self.update_physics();
                let ghost s_detect = self.store;
                self.update_hazzards();
                self.update_exits();
                self.update_animations();
                self.update_camera();
                proof {
                    lemma_loss_scan_congruent(s_detect, self.store, s_detect.n() as int);
                    lemma_exit_scan_congruent(
                        s_detect,
                        self.store,
                        s_detect.pos@[self.cary as int]->Some_0.curr,
                    );
                    assert(interpol_reset(old(self).store, s_reset));
                    assert(controls_resolved(s_reset, s_control, self.player as int, old(self).keys));
                    assert(player_ticked(s_control, s_player, self.player as int));
                    assert(cary_ticked(s_player, s_cary, self.cary as int));
                    assert(spec_physics_tick(s_cary, s_detect));
                    assert(animations_ticked(s_detect, self.store));
                    assert(spec_running_tick(*old(self), *self));
                }
            },
            WorldState::Loss(p, t) => {
                let nt = if t <= TIMER_CAP_MS - TICK_MS {
                    t + TICK_MS
                } else {
                    t
                };
                self.state = WorldState::Loss(p, nt);
            },
            WorldState::Victory(p, t) => {
                let nt = if t <= TIMER_CAP_MS - TICK_MS {
                    t + TICK_MS
                } else {
                    t
                };
                self.state = WorldState::Victory(p, nt);
            },
        }
    }

    /// Drops the carried entity: the player's record and child list and the
    /// entity's carried flag and child record all change together, so the
    /// relation never dangles on either side.
    fn drop_carried(&mut self)
        requires
            old(self).wf(),
            old(self).store.player@[old(self).player as int]->Some_0.carrying is Some,
        ensures
            final(self).wf(),
            World::same_shell(*old(self), *final(self)),
            final(self).store.pos == old(self).store.pos,
            final(self).store.physics == old(self).store.physics,
            final(self).store.collider == old(self).store.collider,
            final(self).store.killable == old(self).store.killable,
            final(self).store.hazzard == old(self).store.hazzard,
            final(self).store.controllable == old(self).store.controllable,
            final(self).store.cary == old(self).store.cary,
            final(self).store.exit == old(self).store.exit,
            final(self).store.sprite == old(self).store.sprite,
            final(self).store.shooter == old(self).store.shooter,
            final(self).store.remove_on_impact == old(self).store.remove_on_impact,
            ({
                let p = old(self).player as int;
                let pl = old(self).store.player@[p]->Some_0;
                let c = pl.carrying->Some_0 as int;
                &&& final(self).store.player@ == old(self).store.player@.update(
                    p,
                    Some(Player { carrying: None, ..pl }),
                )
                &&& final(self).store.children@[p] matches Some(ch) && ch.0@.len() == 0
                &&& forall|i: int|
                    0 <= i < old(self).n() && i != p ==> final(self).store.children@[i] == old(
                        self,
                    ).store.children@[i]
                &&& final(self).store.carryable@ == old(self).store.carryable@.update(
                    c,
                    Some(
                        Carryable { carried: false, ..old(self).store.carryable@[c]->Some_0 },
                    ),
                )
                &&& final(self).store.child_of@ == old(self).store.child_of@.update(
                    c,
                    None::<ChildOf>,
                )
            }),
    {
        let p = self.player;
        let pl: Player = match self.store.player[p] {
            Some(pl) => pl,
            None => unreached(),
        };
        let c: usize = match pl.carrying {
            Some(c) => c,
            None => unreached(),
        };
        let ca: Carryable = match self.store.carryable[c] {
            Some(ca) => ca,
            None => unreached(),
        };
        self.store.player.set(p, Some(Player { carrying: None, ..pl }));
        self.store.children.set(p, Some(Children(Vec::new())));
        self.store.carryable.set(c, Some(Carryable { carried: false, ..ca }));
        self.store.child_of.set(c, None);
    }

    /// Picks entity `c` up: the player's record and child list gain it, its
    /// carried flag is set, and it becomes a child of the player at its
    /// configured carry offset, its collision box cached on the child record
    /// for the resolver's sweep.
    fn pick_up_entity(&mut self, c: usize)
        requires
            old(self).wf(),
            old(self).store.player@[old(self).player as int]->Some_0.carrying is None,
            c < old(self).n(),
            c != old(self).player,
            old(self).store.carryable@[c as int] is Some,
        ensures
            final(self).wf(),
            World::same_shell(*old(self), *final(self)),
            final(self).store.pos == old(self).store.pos,
            final(self).store.physics == old(self).store.physics,
            final(self).store.collider == old(self).store.collider,
            final(self).store.killable == old(self).store.killable,
            final(self).store.hazzard == old(self).store.hazzard,
            final(self).store.controllable == old(self).store.controllable,
            final(self).store.cary == old(self).store.cary,
            final(self).store.exit == old(self).store.exit,
            final(self).store.sprite == old(self).store.sprite,
            final(self).store.shooter == old(self).store.shooter,
            final(self).store.remove_on_impact == old(self).store.remove_on_impact,
            ({
                let p = old(self).player as int;
                let pl = old(self).store.player@[p]->Some_0;
                let ca = old(self).store.carryable@[c as int]->Some_0;
                &&& final(self).store.player@ == old(self).store.player@.update(
                    p,
                    Some(Player { carrying: Some(c), ..pl }),
                )
                &&& final(self).store.children@[p] matches Some(ch) && ch.0@ == seq![c]
                &&& forall|i: int|
                    0 <= i < old(self).n() && i != p ==> final(self).store.children@[i] == old(
                        self,
                    ).store.children@[i]
                &&& final(self).store.carryable@ == old(self).store.carryable@.update(
                    c as int,
                    Some(Carryable { carried: true, ..ca }),
                )
                &&& final(self).store.child_of@ == old(self).store.child_of@.update(
                    c as int,
                    Some(
                        ChildOf {
                            parent: old(self).player,
                            offset: ca.carry_offset,
                            collision: old(self).store.physics@[c as int]->Some_0.bounds,
                        },
                    ),
                )
            }),
    {
        let p = self.player;
        let pl: Player = match self.store.player[p] {
            Some(pl) => pl,
            None => unreached(),
        };
        let ca: Carryable = match self.store.carryable[c] {
            Some(ca) => ca,
            None => unreached(),
        };
        let ph: Physics = match self.store.physics[c] {
            Some(ph) => ph,
            None => unreached(),
        };
        self.store.player.set(p, Some(Player { carrying: Some(c), ..pl }));
        let mut ids: Vec<usize> = Vec::new();
        ids.push(c);
        self.store.children.set(p, Some(Children(ids)));
        self.store.carryable.set(c, Some(Carryable { carried: true, ..ca }));
        self.store.child_of.set(
            c,
            Some(ChildOf { parent: p, offset: ca.carry_offset, collision: ph.bounds }),
        );
    }

    /// Advances every running animation timer by one tick, saturating at the
    /// timer cap.
    pub fn update_animations(&mut self)
        requires
            old(self).wf(),
        ensures
            final(self).wf(),
            World::same_shell(*old(self), *final(self)),
            final(self).store.n() == old(self).store.n(),
            animations_ticked(old(self).store, final(self).store),
    {
        let n = self.store.sprite.len();
        let mut i: usize = 0;
        while i < n
            invariant
                i <= n,
                n == self.store.n(),
                self.wf(),
                self.store.pos == old(self).store.pos,
                self.store.physics == old(self).store.physics,
                self.store.collider == old(self).store.collider,
                self.store.children == old(self).store.children,
                self.store.child_of == old(self).store.child_of,
                self.store.killable == old(self).store.killable,
                self.store.hazzard == old(self).store.hazzard,
                self.store.carryable == old(self).store.carryable,
                self.store.controllable == old(self).store.controllable,
                self.store.player == old(self).store.player,
                self.store.cary == old(self).store.cary,
                self.store.exit == old(self).store.exit,
                self.store.shooter == old(self).store.shooter,
                self.store.remove_on_impact == old(self).store.remove_on_impact,
                self.state == old(self).state,
                self.keys == old(self).keys,
                self.player == old(self).player,
                self.cary == old(self).cary,
                self.camera == old(self).camera,
                self.time_ms == old(self).time_ms,
                forall|k: int|
                    0 <= k < i ==> self.store.sprite@[k] == match (#[trigger] old(
                        self,
                    ).store.sprite@[k]) {
                        Some(s) => Some(
                            Sprite {
                                timer_ms: if s.running && s.timer_ms + TICK_MS <= TIMER_CAP_MS {
                                    (s.timer_ms + TICK_MS) as u64
                                } else {
                                    s.timer_ms
                                },
                                ..s
                            },
                        ),
                        None => None,
                    },
                forall|k: int| i <= k < n ==> self.store.sprite@[k] == old(self).store.sprite@[k],
            decreases n - i,
        {
            let entry: Option<Sprite> = self.store.sprite[i];
            match entry {
                Some(s) => {
                    if s.running && s.timer_ms <= TIMER_CAP_MS - TICK_MS {
                        self.store.sprite.set(i, Some(Sprite { timer_ms: s.timer_ms + TICK_MS, ..s }));
                    } else {
                        self.store.sprite.set(i, Some(s));
                    }
                },
                None => {},
            }
            i += 1;
        }
    }
}


/// The hazard scan depends only on the position, killable and hazard
/// tables; two stores that agree on those scan alike.
proof fn lemma_loss_scan_congruent(s1: Store, s2: Store, k: int)
    requires
        s1.pos == s2.pos,
        s1.killable == s2.killable,
        s1.hazzard == s2.hazzard,
    ensures
        World::spec_loss_pos_below(s1, k) == World::spec_loss_pos_below(s2, k),
    decreases k,
{
    if k > 0 {
        lemma_loss_scan_congruent(s1, s2, k - 1);
        if World::hazard_hit(s1, k - 1) {
            let h = choose|h: int| 0 <= h < s1.n() && #[trigger] World::hazard_overlap(s1, k - 1, h);
            assert(World::hazard_overlap(s2, k - 1, h));
            assert(World::hazard_hit(s2, k - 1));
        }
        if World::hazard_hit(s2, k - 1) {
            let h = choose|h: int| 0 <= h < s2.n() && #[trigger] World::hazard_overlap(s2, k - 1, h);
            assert(World::hazard_overlap(s1, k - 1, h));
            assert(World::hazard_hit(s1, k - 1));
        }
    }
}

/// The exit scan depends only on the position and exit tables; two stores
/// that agree on those scan alike.
proof fn lemma_exit_scan_congruent(s1: Store, s2: Store, cpos: Vec2)
    requires
        s1.pos == s2.pos,
        s1.exit == s2.exit,
    ensures
        World::spec_exit_reached(s1, cpos) == World::spec_exit_reached(s2, cpos),
{
    if World::spec_exit_reached(s1, cpos) {
        let j = choose|j: int|
            0 <= j < s1.n() && s1.pos@[j] is Some && s1.exit@[j] is Some && (
            #[trigger] s1.exit@[j]->Some_0.0.spec_translated(s1.pos@[j]->Some_0.curr)).spec_contains(
                cpos,
            );
        assert((s2.exit@[j]->Some_0.0.spec_translated(s2.pos@[j]->Some_0.curr)).spec_contains(
            cpos,
        ));
    }
    if World::spec_exit_reached(s2, cpos) {
        let j = choose|j: int|
            0 <= j < s2.n() && s2.pos@[j] is Some && s2.exit@[j] is Some && (
            #[trigger] s2.exit@[j]->Some_0.0.spec_translated(s2.pos@[j]->Some_0.curr)).spec_contains(
                cpos,
            );
        assert((s1.exit@[j]->Some_0.0.spec_translated(s1.pos@[j]->Some_0.curr)).spec_contains(
            cpos,
        ));
    }
}

/// Carry reachability: an entity flagged carried is reachable through
/// exactly one parent's child list. It is the single entry of the player's
/// list, no other entity has a child list at all, and its own child record
/// points back at that parent, so the two sides of the relation can never
/// dangle.
pub proof fn lemma_carried_reachable_once(w: World, i: int)
    requires
        w.wf(),
        0 <= i < w.n(),
        w.store.carryable@[i] matches Some(ca) && ca.carried,
    ensures
        w.store.child_of@[i] matches Some(co) && co.parent == w.player,
        w.store.player@[w.player as int]->Some_0.carrying == Some(i as usize),
        w.store.children@[w.player as int] matches Some(ch) && ch.0@ == seq![i as usize],
        forall|j: int|
            0 <= j < w.n() && j != w.player ==> (#[trigger] w.store.children@[j]) is None,
{
}

/// The flyer's stamina always lies within the full bar's range.
pub proof fn lemma_stamina_in_range(w: World)
    requires
        w.wf(),
    ensures
        ({
            let pl = w.store.player@[w.player as int]->Some_0;
            0 <= pl.stamina <= STAMINA_MAX
        }),
{
}

} // verus!
