//! Axis-separated collision resolution. A moving entity proposes one tick of
//! movement; against every non-carried static collider, each axis of the
//! movement is tested on its own and blocked axes are zeroed, with the whole
//! movement cancelled on an unresolvable corner hit.
//!
//! The resolution is discrete, not continuous: only the endpoints of a step
//! are tested, so a step longer than an obstacle's smallest dimension can
//! pass clean through it, and with several obstacles a later block can move
//! the endpoint relative to an obstacle that was tested earlier against the
//! fuller movement. `lemma_resolve_step_blocks` states the guarantee that
//! does hold, per obstacle; each obstacle is checked once, against the
//! movement as resolution has left it so far.

use vstd::prelude::*;
use crate::math::{
    Vec2, Bounds, div_tz, mul_frac, div_trunc, lemma_frac_shrinks, lemma_div_tz_shrinks,
    COORD_LIMIT, VEL_LIMIT,
};
use crate::components::{Horizontal, Vertical};
use crate::store::Store;

verus! {

/// Simulation ticks per second.
pub const TICKS_PER_SECOND: i64 = 25;

/// Per-tick decay kept of grounded horizontal velocity (ground friction of
/// 4.5 per second over a 1/25 s tick).
pub const GROUND_FRICTION_NUM: i64 = 82;

pub const GROUND_FRICTION_DEN: i64 = 100;

/// Velocity components closer to zero than this snap to exactly zero after
/// resolution, so resting bodies do not jitter.
pub const VEL_SNAP_EPS: i64 = 5;

/// Widest movement of one tick.
pub const MOVE_LIMIT: i64 = 100_000_000;

/// Widest corner of a world-space box: a position plus a relative box.
pub const WORLD_BOX_LIMIT: i64 = 110_000_000_000;

/// The in-flight result of resolving one entity's movement: the remaining
/// movement, the velocity after blocks and friction, and the per-axis record
/// of which side was blocked.
#[derive(Clone, Copy, Debug)]
pub struct MoveState {
    pub movement: Vec2,
    pub vel: Vec2,
    pub collided: (Horizontal, Vertical),
}

impl MoveState {
    pub open spec fn wf(self) -> bool {
        self.movement.bounded(MOVE_LIMIT as int) && self.vel.bounded(VEL_LIMIT as int)
    }
}

/// One tick of movement at the given velocity.
pub fn tick_movement(vel: Vec2) -> (r: Vec2)
    requires
        vel.bounded(VEL_LIMIT as int),
    ensures
        r.0 == div_tz(vel.0 as int, TICKS_PER_SECOND as int),
        r.1 == div_tz(vel.1 as int, TICKS_PER_SECOND as int),
        r.bounded(MOVE_LIMIT as int),
{
    proof {
        lemma_div_tz_shrinks(vel.0 as int, TICKS_PER_SECOND as int);
        lemma_div_tz_shrinks(vel.1 as int, TICKS_PER_SECOND as int);
    }
    Vec2(div_trunc(vel.0, TICKS_PER_SECOND), div_trunc(vel.1, TICKS_PER_SECOND))
}

/// A world coordinate clamped to the simulated range.
pub open spec fn spec_clamp_coord(x: int) -> int {
    if x > COORD_LIMIT as int {
        COORD_LIMIT as int
    } else if x < -(COORD_LIMIT as int) {
        -(COORD_LIMIT as int)
    } else {
        x
    }
}

pub fn clamp_coord(x: i64) -> (r: i64)
    ensures
        r == spec_clamp_coord(x as int),
{
    if x > COORD_LIMIT {
        COORD_LIMIT
    } else if x < -COORD_LIMIT {
        -COORD_LIMIT
    } else {
        x
    }
}

/// A velocity component within the snap band becomes exactly zero.
pub open spec fn spec_snap(v: int) -> int {
    if -VEL_SNAP_EPS < v < VEL_SNAP_EPS {
        0
    } else {
        v
    }
}

pub fn snap_vel(v: Vec2) -> (r: Vec2)
    ensures
        r.0 == spec_snap(v.0 as int),
        r.1 == spec_snap(v.1 as int),
{
    Vec2(
        if -VEL_SNAP_EPS < v.0 && v.0 < VEL_SNAP_EPS {
            0
        } else {
            v.0
        },
        if -VEL_SNAP_EPS < v.1 && v.1 < VEL_SNAP_EPS {
            0
        } else {
            v.1
        },
    )
}

/// Resolution of the proposed movement against one obstacle. Nothing happens
/// unless the swept box is clear of the obstacle now and the full move would
/// enter it; then each axis alone is tested, a blocked axis has movement and
/// velocity zeroed and its collision side recorded (a vertical block also
/// applies ground friction to the horizontal velocity), and if both
/// components survive the axis tests, the corner hit cancels the whole
/// movement.
pub open spec fn spec_resolve_step(swept: Bounds, obstacle: Bounds, st: MoveState) -> MoveState {
    if !swept.spec_overlaps(obstacle) && swept.spec_translated(st.movement).spec_overlaps(
        obstacle,
    ) {
        let st1 = if swept.spec_translated(Vec2(st.movement.0, 0)).spec_overlaps(obstacle) {
            MoveState {
                movement: Vec2(0, st.movement.1),
                vel: Vec2(0, st.vel.1),
                collided: (
                    if st.movement.0 > 0 {
                        Horizontal::Right
                    } else {
                        Horizontal::Left
                    },
                    st.collided.1,
                ),
            }
        } else {
            st
        };
        let st2 = if swept.spec_translated(Vec2(0, st1.movement.1)).spec_overlaps(obstacle) {
            MoveState {
                movement: Vec2(st1.movement.0, 0),
                vel: Vec2(
                    div_tz(st1.vel.0 * GROUND_FRICTION_NUM, GROUND_FRICTION_DEN as int) as i64,
                    0,
                ),
                collided: (
                    st1.collided.0,
                    if st1.movement.1 > 0 {
                        Vertical::Up
                    } else {
                        Vertical::Down
                    },
                ),
            }
        } else {
            st1
        };
        if st2.movement.0 != 0 && st2.movement.1 != 0 {
            MoveState { movement: Vec2(0, 0), vel: st2.vel, collided: st2.collided }
        } else {
            st2
        }
    } else {
        st
    }
}

pub fn resolve_step(swept: Bounds, obstacle: Bounds, st: MoveState) -> (r: MoveState)
    requires
        swept.bounded(WORLD_BOX_LIMIT as int),
        st.wf(),
    ensures
        r == spec_resolve_step(swept, obstacle, st),
        r.wf(),
{
    if !swept.overlapps(obstacle) && swept.translated(st.movement).overlapps(obstacle) {
        let mut movement = st.movement;
        let mut vel = st.vel;
        let mut collided = st.collided;
        if swept.translated(Vec2(movement.0, 0)).overlapps(obstacle) {
            collided.0 = if movement.0 > 0 {
                Horizontal::Right
            } else {
                Horizontal::Left
            };
            vel.0 = 0;
            movement.0 = 0;
        }
        if swept.translated(Vec2(0, movement.1)).overlapps(obstacle) {
            collided.1 = if movement.1 > 0 {
                Vertical::Up
            } else {
                Vertical::Down
            };
            proof {
                lemma_frac_shrinks(vel.0 as int, GROUND_FRICTION_NUM as int, GROUND_FRICTION_DEN as int);
            }
            vel = Vec2(mul_frac(vel.0, GROUND_FRICTION_NUM, GROUND_FRICTION_DEN), 0);
            movement.1 = 0;
        }
        if movement.0 != 0 && movement.1 != 0 {
            // Corner hit head on: no axis resolves it cleanly.
            movement = Vec2::zero();
        }
        MoveState { movement, vel, collided }
    } else {
        st
    }
}

/// After resolving against one obstacle, committing the resolved movement
/// never leaves the swept box overlapping that obstacle, provided the two
/// were not overlapping before the move. This is the no-tunneling guarantee
/// of the axis-separated resolver, per obstacle: the endpoint of the step is
/// clear of every obstacle that was tested against the movement that was
/// finally committed.
pub proof fn lemma_resolve_step_blocks(swept: Bounds, obstacle: Bounds, st: MoveState)
    requires
        swept.bounded(WORLD_BOX_LIMIT as int),
        st.movement.bounded(MOVE_LIMIT as int),
        !swept.spec_overlaps(obstacle),
    ensures
        !swept.spec_translated(spec_resolve_step(swept, obstacle, st).movement).spec_overlaps(
            obstacle,
        ),
{
}

/// Total magnitude of the remaining movement: the measure no resolution
/// step ever grows, and which strictly shrinks whenever a step changes
/// anything at all.
pub open spec fn move_measure(st: MoveState) -> int {
    (if st.movement.0 >= 0 {
        st.movement.0 as int
    } else {
        -st.movement.0 as int
    }) + (if st.movement.1 >= 0 {
        st.movement.1 as int
    } else {
        -st.movement.1 as int
    })
}

/// One step never grows the measure, and a step that keeps the measure
/// changed nothing.
proof fn lemma_step_measure(swept: Bounds, obstacle: Bounds, st: MoveState)
    requires
        swept.bounded(WORLD_BOX_LIMIT as int),
        st.movement.bounded(MOVE_LIMIT as int),
    ensures
        move_measure(spec_resolve_step(swept, obstacle, st)) <= move_measure(st),
        move_measure(spec_resolve_step(swept, obstacle, st)) == move_measure(st)
            ==> spec_resolve_step(swept, obstacle, st) == st,
{
}

/// A step that changed nothing, on a box clear of the obstacle, proposed a
/// move whose endpoint is clear of the obstacle too.
proof fn lemma_identity_step_clear(swept: Bounds, obstacle: Bounds, st: MoveState)
    requires
        swept.bounded(WORLD_BOX_LIMIT as int),
        st.movement.bounded(MOVE_LIMIT as int),
        spec_resolve_step(swept, obstacle, st) == st,
        !swept.spec_overlaps(obstacle),
    ensures
        !swept.spec_translated(st.movement).spec_overlaps(obstacle),
{
    if swept.spec_translated(st.movement).spec_overlaps(obstacle) {
        lemma_step_measure(swept, obstacle, st);
        if st.movement.0 == 0 && st.movement.1 == 0 {
            assert(swept.spec_translated(st.movement) == swept);
        } else {
            assert(move_measure(spec_resolve_step(swept, obstacle, st)) < move_measure(st));
        }
    }
}

proof fn lemma_swepts_measure(swepts: Seq<Bounds>, obstacle: Bounds, st: MoveState)
    requires
        forall|j: int|
            0 <= j < swepts.len() ==> (#[trigger] swepts[j]).bounded(WORLD_BOX_LIMIT as int),
        st.movement.bounded(MOVE_LIMIT as int),
        st.wf(),
    ensures
        move_measure(spec_resolve_swepts(swepts, obstacle, st)) <= move_measure(st),
        move_measure(spec_resolve_swepts(swepts, obstacle, st)) == move_measure(st) ==> {
            &&& spec_resolve_swepts(swepts, obstacle, st) == st
            &&& forall|j: int|
                0 <= j < swepts.len() ==> #[trigger] spec_resolve_step(swepts[j], obstacle, st)
                    == st
        },
    decreases swepts.len(),
{
    if swepts.len() > 0 {
        let st1 = spec_resolve_step(swepts[0], obstacle, st);
        lemma_step_measure(swepts[0], obstacle, st);
        lemma_resolve_step_wf(swepts[0], obstacle, st);
        lemma_swepts_measure(swepts.drop_first(), obstacle, st1);
        if move_measure(spec_resolve_swepts(swepts, obstacle, st)) == move_measure(st) {
            assert(st1 == st);
            assert forall|j: int| 0 <= j < swepts.len() implies #[trigger] spec_resolve_step(
                swepts[j],
                obstacle,
                st,
            ) == st by {
                if j > 0 {
                    assert(swepts.drop_first()[j - 1] == swepts[j]);
                }
            }
        }
    }
}

/// The step keeps the state well formed; the ghost folds need this as a
/// lemma of the specification itself.
proof fn lemma_resolve_step_wf(swept: Bounds, obstacle: Bounds, st: MoveState)
    requires
        swept.bounded(WORLD_BOX_LIMIT as int),
        st.wf(),
    ensures
        spec_resolve_step(swept, obstacle, st).wf(),
{
    lemma_frac_shrinks(st.vel.0 as int, GROUND_FRICTION_NUM as int, GROUND_FRICTION_DEN as int);
}

proof fn lemma_obstacles_measure(swepts: Seq<Bounds>, obstacles: Seq<Bounds>, st: MoveState)
    requires
        forall|j: int|
            0 <= j < swepts.len() ==> (#[trigger] swepts[j]).bounded(WORLD_BOX_LIMIT as int),
        st.wf(),
    ensures
        move_measure(spec_resolve_obstacles(swepts, obstacles, st)) <= move_measure(st),
        move_measure(spec_resolve_obstacles(swepts, obstacles, st)) == move_measure(st) ==> {
            &&& spec_resolve_obstacles(swepts, obstacles, st) == st
            &&& forall|j: int, k: int|
                0 <= j < swepts.len() && 0 <= k < obstacles.len()
                    ==> #[trigger] spec_resolve_step(swepts[j], obstacles[k], st) == st
        },
    decreases obstacles.len(),
{
    if obstacles.len() > 0 {
        let st1 = spec_resolve_swepts(swepts, obstacles[0], st);
        lemma_swepts_measure(swepts, obstacles[0], st);
        lemma_resolve_swepts_wf(swepts, obstacles[0], st);
        lemma_obstacles_measure(swepts, obstacles.drop_first(), st1);
        if move_measure(spec_resolve_obstacles(swepts, obstacles, st)) == move_measure(st) {
            assert(st1 == st);
            assert forall|j: int, k: int|
                0 <= j < swepts.len() && 0 <= k < obstacles.len() implies #[trigger] spec_resolve_step(
                swepts[j],
                obstacles[k],
                st,
            ) == st by {
                if k > 0 {
                    assert(obstacles.drop_first()[k - 1] == obstacles[k]);
                }
            }
        }
    }
}

proof fn lemma_resolve_swepts_wf(swepts: Seq<Bounds>, obstacle: Bounds, st: MoveState)
    requires
        forall|j: int|
            0 <= j < swepts.len() ==> (#[trigger] swepts[j]).bounded(WORLD_BOX_LIMIT as int),
        st.wf(),
    ensures
        spec_resolve_swepts(swepts, obstacle, st).wf(),
    decreases swepts.len(),
{
    if swepts.len() > 0 {
        lemma_resolve_step_wf(swepts[0], obstacle, st);
        lemma_resolve_swepts_wf(swepts.drop_first(), obstacle, spec_resolve_step(swepts[0], obstacle, st));
    }
}

/// A move the whole resolution left untouched commits an endpoint clear of
/// every obstacle, for every swept box, provided no swept box overlapped
/// any obstacle before the move. Together with `lemma_resolve_step_blocks`
/// this is the no-tunneling guarantee of the resolver: a blocked step stays
/// clear of what blocked it, and an unblocked move stays clear of all.
pub proof fn lemma_unblocked_commits_clear(swepts: Seq<Bounds>, obstacles: Seq<Bounds>, st: MoveState)
    requires
        forall|j: int|
            0 <= j < swepts.len() ==> (#[trigger] swepts[j]).bounded(WORLD_BOX_LIMIT as int),
        st.wf(),
        spec_resolve_obstacles(swepts, obstacles, st) == st,
        forall|j: int, k: int|
            0 <= j < swepts.len() && 0 <= k < obstacles.len() ==> !(#[trigger] swepts[j]).spec_overlaps(
                #[trigger] obstacles[k],
            ),
    ensures
        forall|j: int, k: int|
            0 <= j < swepts.len() && 0 <= k < obstacles.len() ==> !(#[trigger] swepts[j]).spec_translated(
                st.movement,
            ).spec_overlaps(#[trigger] obstacles[k]),
{
    lemma_obstacles_measure(swepts, obstacles, st);
    assert forall|j: int, k: int|
        0 <= j < swepts.len() && 0 <= k < obstacles.len() implies !(#[trigger] swepts[j]).spec_translated(
        st.movement,
    ).spec_overlaps(#[trigger] obstacles[k]) by {
        assert(spec_resolve_step(swepts[j], obstacles[k], st) == st);
        lemma_identity_step_clear(swepts[j], obstacles[k], st);
    }
}

/// A zero proposed movement is never blocked: the resolution step leaves the
/// state untouched.
pub proof fn lemma_resolve_step_at_rest(swept: Bounds, obstacle: Bounds, st: MoveState)
    requires
        swept.bounded(WORLD_BOX_LIMIT as int),
        st.movement == (Vec2(0, 0)),
    ensures
        spec_resolve_step(swept, obstacle, st) == st,
{
}

/// Resolution of the movement against one obstacle for every swept box in
/// turn (the entity's own box first, then its carried children's boxes).
pub open spec fn spec_resolve_swepts(swepts: Seq<Bounds>, obstacle: Bounds, st: MoveState) -> MoveState
    decreases swepts.len(),
{
    if swepts.len() == 0 {
        st
    } else {
        spec_resolve_swepts(swepts.drop_first(), obstacle, spec_resolve_step(swepts[0], obstacle, st))
    }
}

/// Resolution of the movement against every obstacle in turn.
pub open spec fn spec_resolve_obstacles(
    swepts: Seq<Bounds>,
    obstacles: Seq<Bounds>,
    st: MoveState,
) -> MoveState
    decreases obstacles.len(),
{
    if obstacles.len() == 0 {
        st
    } else {
        spec_resolve_obstacles(
            swepts,
            obstacles.drop_first(),
            spec_resolve_swepts(swepts, obstacles[0], st),
        )
    }
}

/// Entity `j` blocks others: it has a position and a collider and is not
/// itself being carried.
pub open spec fn is_obstacle(s: Store, j: int) -> bool {
    &&& s.pos@[j] is Some
    &&& s.collider@[j] is Some
    &&& !(s.carryable@[j] matches Some(c) && c.carried)
}

/// World-space box of obstacle `j`.
pub open spec fn obstacle_box(s: Store, j: int) -> Bounds {
    match (s.pos@[j], s.collider@[j]) {
        (Some(p), Some(c)) => c.bounds.spec_translated(p.curr),
        _ => Bounds { min: Vec2(0, 0), max: Vec2(0, 0) },
    }
}

/// World-space boxes of all obstacles with id `j` or higher, in id order.
pub open spec fn obstacles_from(s: Store, j: int) -> Seq<Bounds>
    decreases s.n() - j,
{
    if j < 0 || j >= s.n() {
        Seq::empty()
    } else if is_obstacle(s, j) {
        seq![obstacle_box(s, j)] + obstacles_from(s, j + 1)
    } else {
        obstacles_from(s, j + 1)
    }
}

/// For a lone obstacle and a lone swept box, the full resolution fold ends
/// with a movement whose committed endpoint never overlaps that obstacle,
/// provided the two did not overlap before the move.
pub proof fn lemma_resolve_single_obstacle(swept: Bounds, obstacle: Bounds, st: MoveState)
    requires
        swept.bounded(WORLD_BOX_LIMIT as int),
        st.movement.bounded(MOVE_LIMIT as int),
        !swept.spec_overlaps(obstacle),
    ensures
        ({
            let stf = spec_resolve_obstacles(seq![swept], seq![obstacle], st);
            !swept.spec_translated(stf.movement).spec_overlaps(obstacle)
        }),
{
    let s1 = seq![swept];
    let o1 = seq![obstacle];
    assert(s1.drop_first() =~= Seq::<Bounds>::empty());
    assert(o1.drop_first() =~= Seq::<Bounds>::empty());
    let st1 = spec_resolve_step(swept, obstacle, st);
    assert(spec_resolve_swepts(s1.drop_first(), obstacle, st1) == st1);
    assert(spec_resolve_swepts(s1, obstacle, st) == st1);
    assert(spec_resolve_obstacles(s1, o1.drop_first(), st1) == st1);
    assert(spec_resolve_obstacles(s1, o1, st) == st1);
    lemma_resolve_step_blocks(swept, obstacle, st);
}

/// A zero proposed movement survives any sequence of obstacles untouched.
pub proof fn lemma_resolve_at_rest(swepts: Seq<Bounds>, obstacles: Seq<Bounds>, st: MoveState)
    requires
        forall|k: int|
            0 <= k < swepts.len() ==> (#[trigger] swepts[k]).bounded(WORLD_BOX_LIMIT as int),
        st.movement == (Vec2(0, 0)),
    ensures
        spec_resolve_obstacles(swepts, obstacles, st) == st,
    decreases obstacles.len(),
{
    if obstacles.len() > 0 {
        lemma_resolve_swepts_at_rest(swepts, obstacles[0], st);
        lemma_resolve_at_rest(swepts, obstacles.drop_first(), st);
    }
}

proof fn lemma_resolve_swepts_at_rest(swepts: Seq<Bounds>, obstacle: Bounds, st: MoveState)
    requires
        forall|k: int|
            0 <= k < swepts.len() ==> (#[trigger] swepts[k]).bounded(WORLD_BOX_LIMIT as int),
        st.movement == (Vec2(0, 0)),
    ensures
        spec_resolve_swepts(swepts, obstacle, st) == st,
    decreases swepts.len(),
{
    if swepts.len() > 0 {
        lemma_resolve_step_at_rest(swepts[0], obstacle, st);
        lemma_resolve_swepts_at_rest(swepts.drop_first(), obstacle, st);
    }
}

/// Resolves the proposed movement of one entity against every non-carried
/// collider in the store, obstacle by obstacle in id order, sweeping all the
/// given boxes; returns exactly the fold of the single-obstacle resolution.
pub fn resolve_movement(store: &Store, swepts: &Vec<Bounds>, st0: MoveState) -> (r: MoveState)
    requires
        store.wf(),
        forall|k: int|
            0 <= k < swepts@.len() ==> (#[trigger] swepts@[k]).bounded(WORLD_BOX_LIMIT as int),
        st0.wf(),
    ensures
        r == spec_resolve_obstacles(swepts@, obstacles_from(*store, 0), st0),
        r.wf(),
{
    let mut st = st0;
    let n = store.pos.len();
    let mut j: usize = 0;
    while j < n
        invariant
            j <= n,
            n == store.n(),
            store.wf(),
            st.wf(),
            forall|k: int|
                0 <= k < swepts@.len() ==> (#[trigger] swepts@[k]).bounded(WORLD_BOX_LIMIT as int),
            spec_resolve_obstacles(swepts@, obstacles_from(*store, j as int), st)
                == spec_resolve_obstacles(swepts@, obstacles_from(*store, 0), st0),
        decreases n - j,
    {
        let obstructs: bool = match (&store.pos[j], &store.collider[j]) {
            (Some(_), Some(_)) => match &store.carryable[j] {
                Some(c) => !c.carried,
                None => true,
            },
            _ => false,
        };
        if obstructs {
            let cpos = match &store.pos[j] {
                Some(p) => p.curr,
                None => Vec2(0, 0),
            };
            let cbox = match &store.collider[j] {
                Some(c) => c.bounds,
                None => Bounds { min: Vec2(0, 0), max: Vec2(0, 0) },
            };
            let ob = cbox.translated(cpos);
            proof {
                assert(is_obstacle(*store, j as int));
                assert(ob == obstacle_box(*store, j as int));
            }
            let ghost st_in = st;
            proof {
                assert(swepts@.skip(0) =~= swepts@);
            }
            let mut k: usize = 0;
            while k < swepts.len()
                invariant
                    k <= swepts@.len(),
                    st.wf(),
                    forall|k2: int|
                        0 <= k2 < swepts@.len() ==> (#[trigger] swepts@[k2]).bounded(
                            WORLD_BOX_LIMIT as int,
                        ),
                    spec_resolve_swepts(swepts@.skip(k as int), ob, st) == spec_resolve_swepts(
                        swepts@,
                        ob,
                        st_in,
                    ),
                decreases swepts@.len() - k,
            {
                proof {
                    assert(swepts@.skip(k as int)[0] == swepts@[k as int]);
                    assert(swepts@.skip(k as int).drop_first() =~= swepts@.skip(k as int + 1));
                }
                st = resolve_step(swepts[k], ob, st);
                k += 1;
            }
            proof {
                assert(swepts@.skip(swepts@.len() as int).len() == 0);
                assert(st == spec_resolve_swepts(swepts@, ob, st_in));
                assert(obstacles_from(*store, j as int) == seq![obstacle_box(*store, j as int)]
                    + obstacles_from(*store, j as int + 1));
                assert(obstacles_from(*store, j as int).drop_first() =~= obstacles_from(
                    *store,
                    j as int + 1,
                ));
                assert(obstacles_from(*store, j as int)[0] == obstacle_box(*store, j as int));
            }
        } else {
            proof {
                assert(!is_obstacle(*store, j as int));
                assert(obstacles_from(*store, j as int) == obstacles_from(*store, j as int + 1));
            }
        }
        j += 1;
    }
    proof {
        assert(obstacles_from(*store, n as int).len() == 0);
    }
    st
}

} // verus!
