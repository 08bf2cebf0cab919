//! Component records that entities carry, and the constructor functions that
//! bundle a fixed, validated set of components per kind of entity.

use vstd::prelude::*;
use crate::math::{Vec2, Bounds, COORD_LIMIT, BOX_LIMIT, VEL_LIMIT, div_tz};
use crate::render::{Layer, TexAnchor, TexId};
use crate::render::{PLAYER_FLY_FRAMES, PLAYER_FLY_FRAME_MS, CARY_WALK_FRAMES, CARY_WALK_FRAME_MS};
use crate::render::{SPIKES_FRAMES, SPIKES_FRAME_MS, DIVIDER_FRAMES, DIVIDER_FRAME_MS};
use crate::render::{TRAP_CEIL_FRAMES, TRAP_CEIL_FRAME_MS, BULLET_FRAMES, BULLET_FRAME_MS};

verus! {

/// Frame duration given to sprites that never animate.
pub const STILL_FRAME_MS: u64 = 1_000_000_000;

/// Cap on an animation timer; timers saturate here instead of overflowing.
pub const TIMER_CAP_MS: u64 = 1_000_000_000_000_000;

/// Full stamina, in fixed-point units of a full bar.
pub const STAMINA_MAX: i64 = 10_000;

/// Widest stored position: the committed coordinate range plus the carry
/// offset a propagated child can add to it.
pub const POS_LIMIT: i64 = 100_010_000_000;

/// Current location, plus the location at the previous simulation step; the
/// renderer blends the two for sub-tick interpolation.
#[derive(Clone, Copy, Debug, PartialEq, Eq, Structural)]
pub struct Pos {
    pub curr: Vec2,
    pub prev_interpol: Vec2,
}

impl Pos {
    pub open spec fn wf(self) -> bool {
        self.curr.bounded(POS_LIMIT as int) && self.prev_interpol.bounded(POS_LIMIT as int)
    }
}

impl From<Vec2> for Pos {
    /// A position at `pos` with no pending interpolation.
    fn from(pos: Vec2) -> (r: Pos) {
        Pos { curr: pos, prev_interpol: pos }
    }
}

impl vstd::std_specs::convert::FromSpecImpl<Vec2> for Pos {
    open spec fn obeys_from_spec() -> bool {
        true
    }

    open spec fn from_spec(pos: Vec2) -> Pos {
        Pos { curr: pos, prev_interpol: pos }
    }
}

/// A static obstacle box, relative to the entity's position.
#[derive(Clone, Copy, Debug)]
pub struct Collider {
    pub bounds: Bounds,
}

impl Collider {
    pub open spec fn wf(self) -> bool {
        self.bounds.bounded(BOX_LIMIT as int)
    }
}

/// Which side of each axis the last resolution blocked, if any.
#[derive(Clone, Copy, Debug, PartialEq, Eq, Structural)]
pub enum Horizontal {
    Neither,
    Left,
    Right,
}

#[derive(Clone, Copy, Debug, PartialEq, Eq, Structural)]
pub enum Vertical {
    Neither,
    Up,
    Down,
}

/// A moving body: its box relative to position, velocity, whether gravity
/// applies, and the per-axis collision record of the most recent tick.
#[derive(Clone, Copy, Debug)]
pub struct Physics {
    /// Bounds relative to position.
    pub bounds: Bounds,
    pub vel: Vec2,
    pub gravity: bool,
    pub collided: (Horizontal, Vertical),
}

impl Physics {
    pub open spec fn wf(self) -> bool {
        self.bounds.bounded(BOX_LIMIT as int) && self.vel.bounded(VEL_LIMIT as int)
    }
}

/// Child side of the carry relation: the parent id, the fixed offset from
/// the parent, and a copy of the child's collision box (kept here so the
/// resolver can sweep it without touching the child's own components).
#[derive(Clone, Copy, Debug)]
pub struct ChildOf {
    pub parent: usize,
    pub offset: Vec2,
    pub collision: Bounds,
}

impl ChildOf {
    pub open spec fn wf(self) -> bool {
        self.offset.bounded(BOX_LIMIT as int) && self.collision.bounded(BOX_LIMIT as int)
    }
}

/// Parent side of the carry relation: the ordered list of child ids. Both
/// sides are always created and removed together.
#[derive(Debug)]
pub struct Children(pub Vec<usize>);

/// A box that dies on touching any hazard; when `loss_on_death` holds, its
/// death ends the level in a loss.
#[derive(Clone, Copy, Debug)]
pub struct Killable {
    pub bounds: Bounds,
    pub loss_on_death: bool,
}

impl Killable {
    pub open spec fn wf(self) -> bool {
        self.bounds.bounded(BOX_LIMIT as int)
    }
}

/// A box that kills killable entities on overlap.
#[derive(Clone, Copy, Debug)]
pub struct Hazzard {
    pub bounds: Bounds,
}

impl Hazzard {
    pub open spec fn wf(self) -> bool {
        self.bounds.bounded(BOX_LIMIT as int)
    }
}

/// An entity the player can pick up: where a pickup is detected from, where
/// the entity hangs while carried, and whether it is carried now.
#[derive(Clone, Copy, Debug)]
pub struct Carryable {
    pub detect_bounds: Bounds,
    pub carry_offset: Vec2,
    pub carried: bool,
}

impl Carryable {
    pub open spec fn wf(self) -> bool {
        self.detect_bounds.bounded(BOX_LIMIT as int) && self.carry_offset.bounded(
            BOX_LIMIT as int,
        )
    }
}

/// Marks a projectile that is removed when it hits terrain.
#[derive(Clone, Copy, Debug)]
pub struct RemoveOnImpact {}

/// A turret tile; the cooldown is the time left until its next shot.
#[derive(Clone, Copy, Debug)]
pub struct Shooter {
    pub cooldown_ms: u64,
}

/// Per-tick movement intents resolved from the input snapshot.
#[derive(Clone, Copy, Debug)]
pub struct Controllable {
    pub horizontal: Horizontal,
    pub vertical: Vertical,
    pub pick_up: bool,
}

impl Default for Controllable {
    /// No intent on either axis and no pickup.
    fn default() -> (r: Self)
        ensures
            r.horizontal == Horizontal::Neither,
            r.vertical == Vertical::Neither,
            !r.pick_up,
    {
        Controllable { horizontal: Horizontal::Neither, vertical: Vertical::Neither, pick_up: false }
    }
}

/// A drawable animation: its placement, the sprite sequence and its length,
/// frame timing, and an elapsed timer. Looping sprites wrap modulo their
/// total duration; one-shot sprites clamp and report `finished`.
#[derive(Clone, Copy, Debug)]
pub struct Sprite {
    pub offset: Vec2,
    pub tex_anchor: TexAnchor,
    pub layer: Layer,
    pub tex: TexId,
    /// Number of frames in the sequence named by `tex`.
    pub frames: u64,
    pub mirror: bool,
    /// Clockwise quarter turns.
    pub rotation: u8,
    pub frame_duration_ms: u64,
    pub repeat: bool,
    pub timer_ms: u64,
    pub running: bool,
}

impl Sprite {
    pub open spec fn wf(self) -> bool {
        &&& self.offset.bounded(BOX_LIMIT as int)
        &&& 1 <= self.frame_duration_ms <= STILL_FRAME_MS
        &&& 1 <= self.frames <= 1_000_000
        &&& self.timer_ms <= TIMER_CAP_MS
    }

    /// Total length of one pass over the sequence.
    pub open spec fn spec_total_ms(self) -> int {
        self.frame_duration_ms * self.frames
    }

    pub open spec fn spec_timer(self) -> int {
        if self.repeat {
            self.timer_ms as int % self.spec_total_ms()
        } else {
            self.timer_ms as int
        }
    }

    pub open spec fn spec_finished(self) -> bool {
        if self.repeat {
            false
        } else {
            self.timer_ms >= self.spec_total_ms()
        }
    }


    /// The sprite that `single` builds.
    pub open spec fn spec_single(
        tex: TexId,
        frames: u64,
        tex_anchor: TexAnchor,
        layer: Layer,
        rotation: u8,
    ) -> Sprite {
        Sprite {
            offset: Vec2(0, 0),
            tex_anchor,
            layer,
            tex,
            frames,
            mirror: false,
            rotation,
            frame_duration_ms: STILL_FRAME_MS,
            repeat: false,
            timer_ms: 0,
            running: false,
        }
    }

    /// The sprite that `ani` builds.
    pub open spec fn spec_ani(
        tex: TexId,
        frames: u64,
        tex_anchor: TexAnchor,
        layer: Layer,
        frame_duration_ms: u64,
        repeat: bool,
        rotation: u8,
    ) -> Sprite {
        Sprite {
            offset: Vec2(0, 0),
            tex_anchor,
            layer,
            tex,
            frames,
            mirror: false,
            rotation,
            frame_duration_ms,
            repeat,
            timer_ms: 0,
            running: true,
        }
    }

    /// A still image: one pass, never running.
    pub fn single(tex: TexId, frames: u64, tex_anchor: TexAnchor, layer: Layer, rotation: u8) -> (r:
        Sprite)
        requires
            1 <= frames <= 1_000_000,
        ensures
            r == Sprite::spec_single(tex, frames, tex_anchor, layer, rotation),
            r.wf(),
    {
        Sprite {
            offset: Vec2(0, 0),
            tex_anchor,
            layer,
            tex,
            frames,
            mirror: false,
            rotation,
            frame_duration_ms: STILL_FRAME_MS,
            repeat: false,
            timer_ms: 0,
            running: false,
        }
    }

    /// An animation that starts running at its first frame.
    pub fn ani(
        tex: TexId,
        frames: u64,
        tex_anchor: TexAnchor,
        layer: Layer,
        frame_duration_ms: u64,
        repeat: bool,
        rotation: u8,
    ) -> (r: Sprite)
        requires
            1 <= frames <= 1_000_000,
            1 <= frame_duration_ms <= STILL_FRAME_MS,
        ensures
            r == Sprite::spec_ani(tex, frames, tex_anchor, layer, frame_duration_ms, repeat, rotation),
            r.wf(),
    {
        Sprite {
            offset: Vec2(0, 0),
            tex_anchor,
            layer,
            tex,
            frames,
            mirror: false,
            rotation,
            frame_duration_ms,
            repeat,
            timer_ms: 0,
            running: true,
        }
    }

    /// Elapsed time into the current pass: looping sprites wrap modulo the
    /// total duration, one-shot sprites report the raw timer.
    pub fn timer(&self) -> (r: u64)
        requires
            self.wf(),
        ensures
            r == self.spec_timer(),
    {
        if self.repeat {
            proof {
                vstd::arithmetic::mul::lemma_mul_strictly_positive(
                    self.frame_duration_ms as int,
                    self.frames as int,
                );
                vstd::arithmetic::mul::lemma_mul_upper_bound(
                    self.frame_duration_ms as int,
                    1_000_000_000,
                    self.frames as int,
                    1_000_000,
                );
            }
            self.timer_ms % (self.frame_duration_ms * self.frames)
        } else {
            self.timer_ms
        }
    }

    /// Whether a one-shot animation has run through all its frames; looping
    /// animations never finish.
    pub fn finished(&self) -> (r: bool)
        requires
            self.wf(),
        ensures
            r == self.spec_finished(),
    {
        if self.repeat {
            false
        } else {
            proof {
                vstd::arithmetic::mul::lemma_mul_strictly_positive(
                    self.frame_duration_ms as int,
                    self.frames as int,
                );
                vstd::arithmetic::mul::lemma_mul_upper_bound(
                    self.frame_duration_ms as int,
                    1_000_000_000,
                    self.frames as int,
                    1_000_000,
                );
            }
            self.timer_ms >= self.frame_duration_ms * self.frames
        }
    }
}

/// The controllable flyer's own state.
#[derive(Clone, Copy, Debug)]
pub struct Player {
    pub flap_cooldown_ms: u64,
    /// The entity currently carried, if any.
    pub carrying: Option<usize>,
    /// Always within `[0, STAMINA_MAX]`.
    pub stamina: i64,
}

impl Player {
    pub open spec fn wf(self) -> bool {
        0 <= self.stamina <= STAMINA_MAX
    }
}

/// The walking companion's state: its facing direction.
#[derive(Clone, Copy, Debug)]
pub struct Cary {
    pub walk_right: bool,
}

/// A trigger box; the tracked companion inside it ends the level in victory.
#[derive(Clone, Copy, Debug)]
pub struct Exit(pub Bounds);

impl Exit {
    pub open spec fn wf(self) -> bool {
        self.0.bounded(BOX_LIMIT as int)
    }
}

/// Position of a grid cell, in fixed-point units.
pub open spec fn spec_grid(x: int, y: int) -> Vec2 {
    Vec2((1000 * x) as i64, (1000 * y) as i64)
}

/// Grid coordinates a level may place entities on.
pub open spec fn grid_in_range(x: int, y: int) -> bool {
    -100_000_000 <= x <= 100_000_000 && -100_000_000 <= y <= 100_000_000
}

fn grid(x: i64, y: i64) -> (r: Vec2)
    requires
        grid_in_range(x as int, y as int),
    ensures
        r == spec_grid(x as int, y as int),
        r.bounded(COORD_LIMIT as int),
{
    Vec2(1000 * x, 1000 * y)
}

/// A decorative backdrop tile.
pub fn make_tile_background(x: i64, y: i64) -> (r: (Pos, Sprite))
    requires
        grid_in_range(x as int, y as int),
    ensures
        r.0 == (Pos { curr: spec_grid(x as int, y as int), prev_interpol: spec_grid(x as int, y as int) }),
        r.1 == (Sprite {
            offset: Vec2(0i64, -1000i64),
            tex_anchor: TexAnchor::Bottom,
            layer: Layer::Background,
            tex: TexId::TileFree,
            frames: 1,
            mirror: false,
            rotation: 0,
            frame_duration_ms: STILL_FRAME_MS,
            repeat: false,
            timer_ms: 0,
            running: false,
        }),
        r.0.wf() && r.1.wf(),
{
    (
        Pos::from(grid(x, y)),
        Sprite {
            offset: Vec2(0i64, -1000i64),
            tex_anchor: TexAnchor::Bottom,
            layer: Layer::Background,
            tex: TexId::TileFree,
            frames: 1,
            mirror: false,
            rotation: 0,
            frame_duration_ms: STILL_FRAME_MS,
            repeat: false,
            timer_ms: 0,
            running: false,
        },
    )
}

/// A solid terrain tile; grid coordinates refer to the bottom center of the
/// tile.
pub fn make_tile_solid(x: i64, y: i64) -> (r: (Pos, Sprite, Collider))
    requires
        grid_in_range(x as int, y as int),
    ensures
        r.0 == (Pos { curr: spec_grid(x as int, y as int), prev_interpol: spec_grid(x as int, y as int) }),
        r.1 == Sprite::spec_single(TexId::TileSolid, 1, TexAnchor::Bottom, Layer::ForegroundTile, 0),
        r.2.bounds == (Bounds { min: Vec2(-500i64, 0i64), max: Vec2(500, 1000) }),
        r.0.wf() && r.1.wf() && r.2.wf(),
{
    (
        Pos::from(grid(x, y)),
        Sprite::single(TexId::TileSolid, 1, TexAnchor::Bottom, Layer::ForegroundTile, 0),
        Collider { bounds: Bounds::around(Vec2(0, 500), Vec2(1000, 1000)) },
    )
}

/// A solid tile that obeys gravity and can be picked up and carried.
pub fn make_tile_movable(x: i64, y: i64) -> (r: (Pos, Sprite, Collider, Physics, Carryable))
    requires
        grid_in_range(x as int, y as int),
    ensures
        r.0 == (Pos { curr: spec_grid(x as int, y as int), prev_interpol: spec_grid(x as int, y as int) }),
        r.1 == Sprite::spec_single(TexId::TileMovable, 1, TexAnchor::Bottom, Layer::ForegroundTile, 1),
        r.2.bounds == (Bounds { min: Vec2(-475i64, 25i64), max: Vec2(475, 975) }),
        r.3.bounds == r.2.bounds,
        r.3.vel == (Vec2(0, 0)),
        r.3.gravity,
        r.3.collided == (Horizontal::Neither, Vertical::Neither),
        r.4.detect_bounds == (Bounds { min: Vec2(-600i64, 1000i64), max: Vec2(600, 1800) }),
        r.4.carry_offset == (Vec2(0i64, -1225i64)),
        !r.4.carried,
        r.0.wf() && r.1.wf() && r.2.wf() && r.3.wf() && r.4.wf(),
{
    let bounds = Bounds::around(Vec2(0, 500), Vec2(950, 950));
    (
        Pos::from(grid(x, y)),
        Sprite::single(TexId::TileMovable, 1, TexAnchor::Bottom, Layer::ForegroundTile, 1),
        Collider { bounds },
        Physics {
            bounds,
            vel: Vec2::zero(),
            gravity: true,
            collided: (Horizontal::Neither, Vertical::Neither),
        },
        Carryable {
            detect_bounds: Bounds::around(Vec2(0, 1400), Vec2(1200, 800)),
            carry_offset: Vec2(0, -(bounds.size().1 + 275)),
            carried: false,
        },
    )
}

/// Hazard box of a spike tile rotated by the given quarter turns.
pub open spec fn spikes_hazard_bounds(rotation: u8) -> Bounds {
    if rotation % 4 == 0 {
        Bounds { min: Vec2(-500i64, 0i64), max: Vec2(500, 800) }
    } else if rotation % 4 == 1 {
        Bounds { min: Vec2(-500i64, 0i64), max: Vec2(300, 1000) }
    } else if rotation % 4 == 2 {
        Bounds { min: Vec2(-500i64, 200i64), max: Vec2(500, 1000) }
    } else {
        Bounds { min: Vec2(-300i64, 0i64), max: Vec2(500, 1000) }
    }
}

/// A bed of spikes; the rotation points them up, right, down or left.
pub fn make_spikes(x: i64, y: i64, rotation: u8) -> (r: (Pos, Hazzard, Sprite))
    requires
        grid_in_range(x as int, y as int),
    ensures
        r.0 == (Pos { curr: spec_grid(x as int, y as int), prev_interpol: spec_grid(x as int, y as int) }),
        r.1.bounds == spikes_hazard_bounds(rotation),
        r.2 == Sprite::spec_ani(
            TexId::Spikes,
            SPIKES_FRAMES,
            TexAnchor::Bottom,
            Layer::Foreground,
            SPIKES_FRAME_MS,
            true,
            rotation,
        ),
        r.0.wf() && r.1.wf() && r.2.wf(),
{
    let center = Vec2(0, 500).plus(Vec2(0i64, -100i64).rotated(rotation));
    let size = if rotation % 2 == 0 {
        Vec2(1000, 800)
    } else {
        Vec2(800, 1000)
    };
    (
        Pos::from(grid(x, y)),
        Hazzard { bounds: Bounds::around(center, size) },
        Sprite::ani(
            TexId::Spikes,
            SPIKES_FRAMES,
            TexAnchor::Bottom,
            Layer::Foreground,
            SPIKES_FRAME_MS,
            true,
            rotation,
        ),
    )
}

/// Hazard box of a divider beam.
pub open spec fn divider_hazard_bounds(vertical: bool) -> Bounds {
    if vertical {
        Bounds { min: Vec2(-140i64, 0i64), max: Vec2(140, 1000) }
    } else {
        Bounds { min: Vec2(-500i64, 313i64), max: Vec2(500, 687) }
    }
}

/// An energy divider beam, vertical or horizontal.
pub fn make_divider(x: i64, y: i64, vertical: bool) -> (r: (Pos, Hazzard, Sprite))
    requires
        grid_in_range(x as int, y as int),
    ensures
        r.0 == (Pos { curr: spec_grid(x as int, y as int), prev_interpol: spec_grid(x as int, y as int) }),
        r.1.bounds == divider_hazard_bounds(vertical),
        r.2 == Sprite::spec_ani(
            TexId::Divider,
            DIVIDER_FRAMES,
            TexAnchor::Bottom,
            Layer::Foreground,
            DIVIDER_FRAME_MS,
            true,
            if vertical {
                0
            } else {
                1
            },
        ),
        r.0.wf() && r.1.wf() && r.2.wf(),
{
    let size = if vertical {
        Vec2(280, 1000)
    } else {
        Vec2(1000, 375)
    };
    (
        Pos::from(grid(x, y)),
        Hazzard { bounds: Bounds::around(Vec2(0, 500), size) },
        Sprite::ani(
            TexId::Divider,
            DIVIDER_FRAMES,
            TexAnchor::Bottom,
            Layer::Foreground,
            DIVIDER_FRAME_MS,
            true,
            if vertical {
                0
            } else {
                1
            },
        ),
    )
}

/// Hazard box of a snapping trap rotated by the given quarter turns.
pub open spec fn trap_hazard_bounds(rotation: u8) -> Bounds {
    if rotation % 4 == 0 {
        Bounds { min: Vec2(-400i64, 550i64), max: Vec2(400, 950) }
    } else if rotation % 4 == 1 {
        Bounds { min: Vec2(50, 100), max: Vec2(450, 900) }
    } else if rotation % 4 == 2 {
        Bounds { min: Vec2(-400i64, 50i64), max: Vec2(400, 450) }
    } else {
        Bounds { min: Vec2(-450i64, 100i64), max: Vec2(-50i64, 900i64) }
    }
}

/// A snapping trap; the rotation hangs it from a ceiling, wall or floor.
pub fn make_trap(x: i64, y: i64, rotation: u8) -> (r: (Pos, Hazzard, Sprite))
    requires
        grid_in_range(x as int, y as int),
    ensures
        r.0 == (Pos { curr: spec_grid(x as int, y as int), prev_interpol: spec_grid(x as int, y as int) }),
        r.1.bounds == trap_hazard_bounds(rotation),
        r.2 == Sprite::spec_ani(
            TexId::TrapCeil,
            TRAP_CEIL_FRAMES,
            TexAnchor::Bottom,
            Layer::Foreground,
            TRAP_CEIL_FRAME_MS,
            true,
            rotation,
        ),
        r.0.wf() && r.1.wf() && r.2.wf(),
{
    let center = Vec2(0, 500).plus(Vec2(0, 250).rotated(rotation));
    let size = if rotation % 2 == 0 {
        Vec2(800, 400)
    } else {
        Vec2(400, 800)
    };
    (
        Pos::from(grid(x, y)),
        Hazzard { bounds: Bounds::around(center, size) },
        Sprite::ani(
            TexId::TrapCeil,
            TRAP_CEIL_FRAMES,
            TexAnchor::Bottom,
            Layer::Foreground,
            TRAP_CEIL_FRAME_MS,
            true,
            rotation,
        ),
    )
}

/// A projectile fired from `pos` toward `target` at three tiles per second,
/// unaffected by gravity and removed on impact.
pub fn make_bullet(pos: Vec2, target: Vec2) -> (r: (Pos, Sprite, Physics, Hazzard, RemoveOnImpact))
    requires
        pos.bounded(COORD_LIMIT as int),
        target.bounded(COORD_LIMIT as int),
        -1_500_000_000 <= target.0 - pos.0 <= 1_500_000_000,
        -1_500_000_000 <= target.1 - pos.1 <= 1_500_000_000,
        target != pos,
    ensures
        r.0 == (Pos { curr: pos, prev_interpol: pos }),
        r.1 == Sprite::spec_ani(
            TexId::Bullet,
            BULLET_FRAMES,
            TexAnchor::Center,
            Layer::ForegroundTile,
            BULLET_FRAME_MS,
            true,
            0,
        ),
        r.2.bounds == (Bounds { min: Vec2(-300i64, -300i64), max: Vec2(300, 300) }),
        exists|l: int|
            1 <= l && #[trigger] (l * l) <= (target.0 - pos.0) * (target.0 - pos.0) + (target.1
                - pos.1) * (target.1 - pos.1) < (l + 1) * (l + 1) && r.2.vel.0 == 3 * div_tz(
                (target.0 - pos.0) * 1000,
                l,
            ) && r.2.vel.1 == 3 * div_tz((target.1 - pos.1) * 1000, l),
        !r.2.gravity,
        r.2.collided == (Horizontal::Neither, Vertical::Neither),
        r.3.bounds == (Bounds { min: Vec2(-200i64, -200i64), max: Vec2(200, 200) }),
        r.0.wf() && r.1.wf() && r.2.wf() && r.3.wf(),
{
    let dir = target.minus(pos).norm();
    let vel = Vec2(dir.0 * 3, dir.1 * 3);
    (
        Pos::from(pos),
        Sprite::ani(
            TexId::Bullet,
            BULLET_FRAMES,
            TexAnchor::Center,
            Layer::ForegroundTile,
            BULLET_FRAME_MS,
            true,
            0,
        ),
        Physics {
            bounds: Bounds::around(Vec2::zero(), Vec2(600, 600)),
            vel,
            gravity: false,
            collided: (Horizontal::Neither, Vertical::Neither),
        },
        Hazzard { bounds: Bounds::around(Vec2::zero(), Vec2(400, 400)) },
        RemoveOnImpact {  },
    )
}

/// A turret tile: solid terrain with a shot cooldown.
pub fn make_shooter(x: i64, y: i64) -> (r: (Pos, Sprite, Collider, Shooter))
    requires
        grid_in_range(x as int, y as int),
    ensures
        r.0 == (Pos { curr: spec_grid(x as int, y as int), prev_interpol: spec_grid(x as int, y as int) }),
        r.1 == (Sprite {
            offset: Vec2(0, 500),
            tex_anchor: TexAnchor::Center,
            layer: Layer::ForegroundTile,
            tex: TexId::Shooter,
            frames: 1,
            mirror: false,
            rotation: 0,
            frame_duration_ms: STILL_FRAME_MS,
            repeat: false,
            timer_ms: 0,
            running: false,
        }),
        r.2.bounds == (Bounds { min: Vec2(-500i64, 0i64), max: Vec2(500, 1000) }),
        r.3.cooldown_ms == 2000,
        r.0.wf() && r.1.wf() && r.2.wf(),
{
    (
        Pos::from(grid(x, y)),
        Sprite {
            offset: Vec2(0, 500),
            tex_anchor: TexAnchor::Center,
            layer: Layer::ForegroundTile,
            tex: TexId::Shooter,
            frames: 1,
            mirror: false,
            rotation: 0,
            frame_duration_ms: STILL_FRAME_MS,
            repeat: false,
            timer_ms: 0,
            running: false,
        },
        Collider { bounds: Bounds::around(Vec2(0, 500), Vec2(1000, 1000)) },
        Shooter { cooldown_ms: 2000 },
    )
}

/// The controllable flyer, at full stamina and carrying nothing.
pub fn make_player(pos: Vec2) -> (r: (
    Player,
    Pos,
    Physics,
    Controllable,
    Children,
    Killable,
    Sprite,
))
    requires
        pos.bounded(COORD_LIMIT as int),
    ensures
        r.0.flap_cooldown_ms == 0 && r.0.carrying is None && r.0.stamina == STAMINA_MAX,
        r.1 == (Pos { curr: pos, prev_interpol: pos }),
        r.2.bounds == (Bounds { min: Vec2(-275i64, -275i64), max: Vec2(275, 275) }),
        r.2.vel == (Vec2(0, 0)) && r.2.gravity && r.2.collided == (
            Horizontal::Neither,
            Vertical::Neither,
        ),
        r.3.horizontal == Horizontal::Neither && r.3.vertical == Vertical::Neither && !r.3.pick_up,
        r.4.0@ =~= Seq::<usize>::empty(),
        r.5.bounds == r.2.bounds && r.5.loss_on_death,
        r.6 == Sprite::spec_ani(
            TexId::PlayerFly,
            PLAYER_FLY_FRAMES,
            TexAnchor::Center,
            Layer::Foreground,
            PLAYER_FLY_FRAME_MS,
            false,
            0,
        ),
        r.0.wf() && r.1.wf() && r.2.wf() && r.5.wf() && r.6.wf(),
{
    let bounds = Bounds::around(Vec2::zero(), Vec2(550, 550));
    (
        Player { flap_cooldown_ms: 0, carrying: None, stamina: STAMINA_MAX },
        Pos::from(pos),
        Physics {
            bounds,
            vel: Vec2::zero(),
            gravity: true,
            collided: (Horizontal::Neither, Vertical::Neither),
        },
        Controllable::default(),
        Children(Vec::new()),
        Killable { bounds, loss_on_death: true },
        Sprite::ani(
            TexId::PlayerFly,
            PLAYER_FLY_FRAMES,
            TexAnchor::Center,
            Layer::Foreground,
            PLAYER_FLY_FRAME_MS,
            false,
            0,
        ),
    )
}

/// The walking companion, initially headed right.
pub fn make_cary(pos: Vec2) -> (r: (Cary, Pos, Physics, Killable, Carryable, Sprite))
    requires
        pos.bounded(COORD_LIMIT as int),
    ensures
        r.0.walk_right,
        r.1 == (Pos { curr: pos, prev_interpol: pos }),
        r.2.bounds == (Bounds { min: Vec2(-350i64, 0i64), max: Vec2(350, 1200) }),
        r.2.vel == (Vec2(0, 0)) && r.2.gravity && r.2.collided == (
            Horizontal::Neither,
            Vertical::Neither,
        ),
        r.3.bounds == (Bounds { min: Vec2(-150i64, 0i64), max: Vec2(150, 1200) }) && r.3.loss_on_death,
        r.4.detect_bounds == (Bounds { min: Vec2(-600i64, 1000i64), max: Vec2(600, 2000) }),
        r.4.carry_offset == (Vec2(0i64, -1300i64)),
        !r.4.carried,
        r.1.wf() && r.2.wf() && r.3.wf() && r.4.wf() && r.5.wf(),
        r.5 == Sprite::spec_ani(
            TexId::CaryWalk,
            CARY_WALK_FRAMES,
            TexAnchor::Bottom,
            Layer::ForegroundPlayer,
            CARY_WALK_FRAME_MS,
            true,
            0,
        ),
{
    (
        Cary { walk_right: true },
        Pos::from(pos),
        Physics {
            bounds: Bounds::around(Vec2(0, 600), Vec2(700, 1200)),
            vel: Vec2::zero(),
            gravity: true,
            collided: (Horizontal::Neither, Vertical::Neither),
        },
        Killable { bounds: Bounds::around(Vec2(0, 600), Vec2(300, 1200)), loss_on_death: true },
        Carryable {
            detect_bounds: Bounds::around(Vec2(0, 1500), Vec2(1200, 1000)),
            carry_offset: Vec2(0i64, -1300i64),
            carried: false,
        },
        Sprite::ani(
            TexId::CaryWalk,
            CARY_WALK_FRAMES,
            TexAnchor::Bottom,
            Layer::ForegroundPlayer,
            CARY_WALK_FRAME_MS,
            true,
            0,
        ),
    )
}

/// A level exit trigger.
pub fn make_exit(x: i64, y: i64) -> (r: (Pos, Exit, Sprite))
    requires
        grid_in_range(x as int, y as int),
    ensures
        r.0 == (Pos { curr: spec_grid(x as int, y as int), prev_interpol: spec_grid(x as int, y as int) }),
        r.1.0 == (Bounds { min: Vec2(-150i64, -200i64), max: Vec2(150, 1400) }),
        r.2 == Sprite::spec_single(TexId::Exit, 1, TexAnchor::Bottom, Layer::Foreground, 0),
        r.0.wf() && r.1.wf() && r.2.wf(),
{
    (
        Pos::from(grid(x, y)),
        Exit(Bounds::around(Vec2(0, 600), Vec2(300, 1600))),
        Sprite::single(TexId::Exit, 1, TexAnchor::Bottom, Layer::Foreground, 0),
    )
}

} // verus!
