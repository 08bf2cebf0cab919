//! Plain data handed to the render collaborator: depth layers, texture
//! anchors, named sprite sequences, and (further down, once the world exists)
//! the per-frame extraction of draw commands.

use vstd::prelude::*;
use crate::math::{Vec2, div_tz, div_trunc, spec_lerp};
use crate::components::{Sprite, Pos, Carryable, Player, STAMINA_MAX};
use crate::store::Store;
use crate::world::{World, Camera, WorldState, GAME_END_WAIT_MS};

verus! {

/// Depth layer of a draw command; `depth` gives the numeric level, lower
/// levels draw in front.
#[derive(Clone, Copy, Debug, PartialEq, Eq, Structural)]
pub enum Layer {
    Ui,
    ForegroundTile,
    ForegroundPlayer,
    ForegroundPickupHint,
    Foreground,
    Background,
    BackgroundTile,
}

impl Layer {
    pub open spec fn spec_depth(self) -> u8 {
        match self {
            Layer::Ui => 1,
            Layer::ForegroundTile => 3,
            Layer::ForegroundPlayer => 4,
            Layer::ForegroundPickupHint => 5,
            Layer::Foreground => 7,
            Layer::Background => 8,
            Layer::BackgroundTile => 9,
        }
    }

    /// Numeric depth level of the layer.
    pub fn depth(self) -> (r: u8)
        ensures
            r == self.spec_depth(),
    {
        match self {
            Layer::Ui => 1,
            Layer::ForegroundTile => 3,
            Layer::ForegroundPlayer => 4,
            Layer::ForegroundPickupHint => 5,
            Layer::Foreground => 7,
            Layer::Background => 8,
            Layer::BackgroundTile => 9,
        }
    }
}

/// Which point of the texture the draw position refers to.
#[derive(Clone, Copy, Debug, PartialEq, Eq, Structural)]
pub enum TexAnchor {
    Top,
    Center,
    Bottom,
}

/// Name of a baked sprite sequence; the atlas collaborator resolves it to
/// texture regions.
#[derive(Clone, Copy, Debug, PartialEq, Eq, Structural)]
pub enum TexId {
    TileFree,
    TileSolid,
    TileMovable,
    Spikes,
    Divider,
    TrapCeil,
    Bullet,
    Shooter,
    PlayerFly,
    PlayerIdle,
    PlayerDive,
    CaryWalk,
    Exit,
    PickupHint,
    StaminaBar,
    Cyan,
    Controls,
    Victory,
    TextRetry,
    TextNext,
}

/// Frame counts of the animated sprite sequences in the baked atlas.
pub const PLAYER_FLY_FRAMES: u64 = 4;

pub const CARY_WALK_FRAMES: u64 = 4;

pub const SPIKES_FRAMES: u64 = 4;

pub const DIVIDER_FRAMES: u64 = 4;

pub const TRAP_CEIL_FRAMES: u64 = 4;

pub const BULLET_FRAMES: u64 = 2;

pub const STAMINA_BAR_FRAMES: u64 = 10;

/// Frame durations of the animated sequences, in milliseconds.
pub const PLAYER_FLY_FRAME_MS: u64 = 80;

pub const CARY_WALK_FRAME_MS: u64 = 200;

pub const SPIKES_FRAME_MS: u64 = 270;

pub const DIVIDER_FRAME_MS: u64 = 40;

pub const TRAP_CEIL_FRAME_MS: u64 = 130;

pub const BULLET_FRAME_MS: u64 = 300;

/// The fixed camera interface overlays are projected with.
pub const UI_CAMERA_SIZE: i64 = 7_000;

/// One textured quad for the render collaborator: a world (or interface)
/// position, an anchor, a texture-sequence handle with the frame to show,
/// a depth layer, and mirror and quarter-turn flags.
#[derive(Clone, Copy, Debug, PartialEq, Eq, Structural)]
pub struct DrawCmd {
    pub pos: Vec2,
    pub anchor: TexAnchor,
    pub tex: TexId,
    pub frame: u64,
    pub layer: Layer,
    pub mirror: bool,
    pub rotation: u8,
    /// Projected with the fixed interface camera instead of the world's.
    pub ui: bool,
}

/// The screen-transition directive of the win and lose effect: its center,
/// how far it has progressed (thousandths of a tile), and its flavor.
#[derive(Clone, Copy, Debug, PartialEq, Eq, Structural)]
pub struct Transition {
    pub center: Vec2,
    pub progress_milli: u64,
    pub victory: bool,
}

/// Everything the render collaborator needs for one frame.
pub struct Frame {
    pub camera: Camera,
    pub draws: Vec<DrawCmd>,
    pub transition: Transition,
}

/// Which frame of its sequence a sprite shows: elapsed time over the frame
/// duration, wrapping for looping sprites and clamping to the last frame
/// for one-shot ones.
pub open spec fn spec_frame_index(sp: Sprite) -> int {
    let base = sp.timer_ms as int / sp.frame_duration_ms as int;
    if sp.repeat {
        base % (sp.frames as int)
    } else if base < sp.frames {
        base
    } else {
        sp.frames - 1
    }
}

pub fn frame_index(sp: &Sprite) -> (r: u64)
    requires
        sp.wf(),
    ensures
        r == spec_frame_index(*sp),
        r < sp.frames,
{
    let base = sp.timer_ms / sp.frame_duration_ms;
    proof {
        vstd::arithmetic::div_mod::lemma_mod_division_less_than_divisor(
            base as int,
            sp.frames as int,
        );
    }
    if sp.repeat {
        base % sp.frames
    } else if base < sp.frames {
        base
    } else {
        sp.frames - 1
    }
}

/// The draw command of the sprite of entity `i`: its previous and current
/// positions blended by the interpolation progress, plus the sprite offset.
pub open spec fn spec_sprite_cmd(s: Store, i: int, lerp_milli: int) -> DrawCmd {
    let p = s.pos@[i]->Some_0;
    let sp = s.sprite@[i]->Some_0;
    let base = spec_lerp(p.prev_interpol, p.curr, lerp_milli);
    DrawCmd {
        pos: Vec2((base.0 + sp.offset.0) as i64, (base.1 + sp.offset.1) as i64),
        anchor: sp.tex_anchor,
        tex: sp.tex,
        frame: spec_frame_index(sp) as u64,
        layer: sp.layer,
        mirror: sp.mirror,
        rotation: sp.rotation,
        ui: false,
    }
}

/// Draw commands of every entity holding a position and a sprite, from id
/// `j` up, in id order.
pub open spec fn spec_sprite_cmds(s: Store, lerp_milli: int, j: int) -> Seq<DrawCmd>
    decreases s.n() - j,
{
    if j < 0 || j >= s.n() {
        Seq::empty()
    } else if s.pos@[j] is Some && s.sprite@[j] is Some {
        seq![spec_sprite_cmd(s, j, lerp_milli)] + spec_sprite_cmds(s, lerp_milli, j + 1)
    } else {
        spec_sprite_cmds(s, lerp_milli, j + 1)
    }
}

/// The pickup hint, floating half-way toward the carry position over the
/// first carryable in reach, when there is one and it is not carried.
pub open spec fn spec_hint_cmds(w: World) -> Seq<DrawCmd> {
    match World::spec_find_pickupable_from(w.store, w.spec_player_pos(), 0) {
        Some(c) => if !w.store.carryable@[c as int]->Some_0.carried {
            let ppos = w.spec_player_pos();
            let off = w.store.carryable@[c as int]->Some_0.carry_offset;
            seq![
                DrawCmd {
                    pos: Vec2(
                        (ppos.0 + div_tz(off.0 as int, 2)) as i64,
                        (ppos.1 + div_tz(off.1 as int, 2)) as i64,
                    ),
                    anchor: TexAnchor::Center,
                    tex: TexId::PickupHint,
                    frame: 0,
                    layer: Layer::ForegroundPickupHint,
                    mirror: false,
                    rotation: 0,
                    ui: false,
                },
            ]
        } else {
            Seq::empty()
        },
        None => Seq::empty(),
    }
}

/// The stamina bar, a little above the flyer, while the level runs and the
/// bar is not full.
pub open spec fn spec_stamina_cmds(w: World) -> Seq<DrawCmd> {
    let pl = w.store.player@[w.player as int]->Some_0;
    if w.state == WorldState::Running && pl.stamina < STAMINA_MAX {
        let ppos = w.spec_player_pos();
        seq![
            DrawCmd {
                pos: Vec2(ppos.0, (ppos.1 + 700) as i64),
                anchor: TexAnchor::Bottom,
                tex: TexId::StaminaBar,
                frame: div_tz(pl.stamina * STAMINA_BAR_FRAMES, STAMINA_MAX as int) as u64,
                layer: Layer::Ui,
                mirror: false,
                rotation: 0,
                ui: false,
            },
        ]
    } else {
        Seq::empty()
    }
}

/// The retry or advance text, centered on the interface, once an ended
/// level has waited out its minimum showing time.
pub open spec fn spec_overlay_cmds(w: World) -> Seq<DrawCmd> {
    let retry = DrawCmd {
        pos: Vec2(0, 0),
        anchor: TexAnchor::Center,
        tex: TexId::TextRetry,
        frame: 0,
        layer: Layer::Ui,
        mirror: false,
        rotation: 0,
        ui: true,
    };
    let advance = DrawCmd {
        pos: Vec2(0, 0),
        anchor: TexAnchor::Center,
        tex: TexId::TextNext,
        frame: 0,
        layer: Layer::Ui,
        mirror: false,
        rotation: 0,
        ui: true,
    };
    match w.state {
        WorldState::Running => Seq::empty(),
        WorldState::Loss(_, t) => if t > GAME_END_WAIT_MS {
            seq![retry]
        } else {
            Seq::empty()
        },
        WorldState::Victory(_, t) => if t > GAME_END_WAIT_MS {
            seq![advance]
        } else {
            Seq::empty()
        },
    }
}

/// The transition directive of the current state: nothing while running,
/// else a wipe centered where the level ended, widening with the time since.
pub open spec fn spec_transition(w: World) -> Transition {
    match w.state {
        WorldState::Running => Transition { center: Vec2(0, 0), progress_milli: 0, victory: false },
        WorldState::Loss(c, t) => Transition {
            center: c,
            progress_milli: (13 * t / 10) as u64,
            victory: false,
        },
        WorldState::Victory(c, t) => Transition {
            center: c,
            progress_milli: (13 * t / 10) as u64,
            victory: true,
        },
    }
}

/// One tile of the full-screen interface backdrop, by its index in the
/// column-major sweep over the 61-by-20 grid centered on the origin.
pub open spec fn spec_backdrop_cmd(k: int) -> DrawCmd {
    DrawCmd {
        pos: Vec2((1000 * (k / 20 - 30)) as i64, (1000 * (k % 20 - 10)) as i64),
        anchor: TexAnchor::Center,
        tex: TexId::Cyan,
        frame: 0,
        layer: Layer::ForegroundTile,
        mirror: false,
        rotation: 0,
        ui: true,
    }
}

/// A full-screen interface frame: the backdrop grid with one centered
/// overlay on top, under the fixed interface camera.
fn screen_frame(overlay: TexId) -> (r: Frame)
    ensures
        r.camera == (Camera { pos: Vec2(0, 0), size: UI_CAMERA_SIZE }),
        r.transition == (Transition { center: Vec2(0, 0), progress_milli: 0, victory: false }),
        r.draws@.len() == 1221,
        forall|k: int| 0 <= k < 1220 ==> r.draws@[k] == spec_backdrop_cmd(k),
        r.draws@[1220] == (DrawCmd {
            pos: Vec2(0, 0),
            anchor: TexAnchor::Center,
            tex: overlay,
            frame: 0,
            layer: Layer::Ui,
            mirror: false,
            rotation: 0,
            ui: true,
        }),
{
    let mut draws: Vec<DrawCmd> = Vec::new();
    let mut xi: usize = 0;
    while xi < 61
        invariant
            xi <= 61,
            draws@.len() == xi * 20,
            forall|k: int| 0 <= k < draws@.len() ==> draws@[k] == spec_backdrop_cmd(k),
        decreases 61 - xi,
    {
        let mut yi: usize = 0;
        while yi < 20
            invariant
                xi < 61,
                yi <= 20,
                draws@.len() == xi * 20 + yi,
                forall|k: int| 0 <= k < draws@.len() ==> draws@[k] == spec_backdrop_cmd(k),
            decreases 20 - yi,
        {
            let x: i64 = xi as i64 - 30;
            let y: i64 = yi as i64 - 10;
            proof {
                vstd::arithmetic::div_mod::lemma_fundamental_div_mod_converse(
                    xi as int * 20 + yi as int,
                    20,
                    xi as int,
                    yi as int,
                );
            }
            draws.push(
                DrawCmd {
                    pos: Vec2(1000 * x, 1000 * y),
                    anchor: TexAnchor::Center,
                    tex: TexId::Cyan,
                    frame: 0,
                    layer: Layer::ForegroundTile,
                    mirror: false,
                    rotation: 0,
                    ui: true,
                },
            );
            yi += 1;
        }
        xi += 1;
    }
    draws.push(
        DrawCmd {
            pos: Vec2(0, 0),
            anchor: TexAnchor::Center,
            tex: overlay,
            frame: 0,
            layer: Layer::Ui,
            mirror: false,
            rotation: 0,
            ui: true,
        },
    );
    Frame {
        camera: Camera { pos: Vec2(0, 0), size: UI_CAMERA_SIZE },
        draws,
        transition: Transition { center: Vec2(0, 0), progress_milli: 0, victory: false },
    }
}

/// The frame shown before a level starts: the backdrop with the controls
/// card.
pub fn render_show_controls() -> (r: Frame)
    ensures
        r.camera == (Camera { pos: Vec2(0, 0), size: UI_CAMERA_SIZE }),
        r.draws@.len() == 1221,
        forall|k: int| 0 <= k < 1220 ==> r.draws@[k] == spec_backdrop_cmd(k),
        r.draws@[1220] == (DrawCmd {
            pos: Vec2(0, 0),
            anchor: TexAnchor::Center,
            tex: TexId::Controls,
            frame: 0,
            layer: Layer::Ui,
            mirror: false,
            rotation: 0,
            ui: true,
        }),
{
    screen_frame(TexId::Controls)
}

/// The frame shown once every level is won: the backdrop with the victory
/// card.
pub fn render_victory() -> (r: Frame)
    ensures
        r.camera == (Camera { pos: Vec2(0, 0), size: UI_CAMERA_SIZE }),
        r.draws@.len() == 1221,
        forall|k: int| 0 <= k < 1220 ==> r.draws@[k] == spec_backdrop_cmd(k),
        r.draws@[1220] == (DrawCmd {
            pos: Vec2(0, 0),
            anchor: TexAnchor::Center,
            tex: TexId::Victory,
            frame: 0,
            layer: Layer::Ui,
            mirror: false,
            rotation: 0,
            ui: true,
        }),
{
    screen_frame(TexId::Victory)
}

impl World {
    /// Extracts one frame: a pure, read-only projection of the world. The
    /// sprite of every positioned entity is placed at its previous and
    /// current positions blended by the interpolation progress; then come
    /// the pickup hint, the stamina bar, and an end-of-level overlay, with
    /// the transition directive of the current state.
    pub fn render(&self, lerp_milli: i64) -> (r: Frame)
        requires
            self.wf(),
        ensures
            r.camera == self.camera,
            r.transition == spec_transition(*self),
            r.draws@ == spec_sprite_cmds(self.store, lerp_milli as int, 0) + spec_hint_cmds(*self)
                + spec_stamina_cmds(*self) + spec_overlay_cmds(*self),
    {
        let mut draws: Vec<DrawCmd> = Vec::new();
        let n = self.store.pos.len();
        let mut i: usize = 0;
        while i < n
            invariant
                i <= n,
                n == self.store.n(),
                self.wf(),
                draws@ + spec_sprite_cmds(self.store, lerp_milli as int, i as int)
                    =~= spec_sprite_cmds(self.store, lerp_milli as int, 0),
            decreases n - i,
        {
            let entry: (Option<Pos>, Option<Sprite>) = (self.store.pos[i], self.store.sprite[i]);
            match entry {
                (Some(p), Some(sp)) => {
                    let base = p.prev_interpol.lerp(p.curr, lerp_milli);
                    let cmd = DrawCmd {
                        pos: Vec2(base.0 + sp.offset.0, base.1 + sp.offset.1),
                        anchor: sp.tex_anchor,
                        tex: sp.tex,
                        frame: frame_index(&sp),
                        layer: sp.layer,
                        mirror: sp.mirror,
                        rotation: sp.rotation,
                        ui: false,
                    };
                    proof {
                        assert(cmd == spec_sprite_cmd(self.store, i as int, lerp_milli as int));
                    }
                    draws.push(cmd);
                },
                _ => {},
            }
            i += 1;
        }
        proof {
            assert(draws@ =~= spec_sprite_cmds(self.store, lerp_milli as int, 0));
        }
        let ghost sprites_done = draws@;
        match self.find_pickupable() {
            Some(c) => {
                let ca: Carryable = match self.store.carryable[c] {
                    Some(ca) => ca,
                    None => unreached(),
                };
                if !ca.carried {
                    let ppos: Vec2 = match self.store.pos[self.player] {
                        Some(p) => p.curr,
                        None => unreached(),
                    };
                    draws.push(
                        DrawCmd {
                            pos: Vec2(
                                ppos.0 + div_trunc(ca.carry_offset.0, 2),
                                ppos.1 + div_trunc(ca.carry_offset.1, 2),
                            ),
                            anchor: TexAnchor::Center,
                            tex: TexId::PickupHint,
                            frame: 0,
                            layer: Layer::ForegroundPickupHint,
                            mirror: false,
                            rotation: 0,
                            ui: false,
                        },
                    );
                }
            },
            None => {},
        }
        proof {
            assert(draws@ =~= sprites_done + spec_hint_cmds(*self));
        }
        let ghost hints_done = draws@;
        let pl: Player = match self.store.player[self.player] {
            Some(pl) => pl,
            None => unreached(),
        };
        let running: bool = match self.state {
            WorldState::Running => true,
            _ => false,
        };
        if running && pl.stamina < STAMINA_MAX {
            let ppos: Vec2 = match self.store.pos[self.player] {
                Some(p) => p.curr,
                None => unreached(),
            };
            proof {
                crate::math::lemma_frac_shrinks(pl.stamina as int, STAMINA_BAR_FRAMES as int, STAMINA_MAX as int);
            }
            draws.push(
                DrawCmd {
                    pos: Vec2(ppos.0, ppos.1 + 700),
                    anchor: TexAnchor::Bottom,
                    tex: TexId::StaminaBar,
                    frame: div_trunc(pl.stamina * (STAMINA_BAR_FRAMES as i64), STAMINA_MAX) as u64,
                    layer: Layer::Ui,
                    mirror: false,
                    rotation: 0,
                    ui: false,
                },
            );
        }
        proof {
            assert(draws@ =~= hints_done + spec_stamina_cmds(*self));
        }
        let ghost stamina_done = draws@;
        let transition: Transition = match self.state {
            WorldState::Running => Transition {
                center: Vec2(0, 0),
                progress_milli: 0,
                victory: false,
            },
            WorldState::Loss(c, t) => {
                if t > GAME_END_WAIT_MS {
                    draws.push(
                        DrawCmd {
                            pos: Vec2(0, 0),
                            anchor: TexAnchor::Center,
                            tex: TexId::TextRetry,
                            frame: 0,
                            layer: Layer::Ui,
                            mirror: false,
                            rotation: 0,
                            ui: true,
                        },
                    );
                }
                Transition { center: c, progress_milli: 13 * t / 10, victory: false }
            },
            WorldState::Victory(c, t) => {
                if t > GAME_END_WAIT_MS {
                    draws.push(
                        DrawCmd {
                            pos: Vec2(0, 0),
                            anchor: TexAnchor::Center,
                            tex: TexId::TextNext,
                            frame: 0,
                            layer: Layer::Ui,
                            mirror: false,
                            rotation: 0,
                            ui: true,
                        },
                    );
                }
                Transition { center: c, progress_milli: 13 * t / 10, victory: true }
            },
        };
        proof {
            assert(draws@ =~= stamina_done + spec_overlay_cmds(*self));
            assert(draws@ =~= spec_sprite_cmds(self.store, lerp_milli as int, 0) + spec_hint_cmds(
                *self,
            ) + spec_stamina_cmds(*self) + spec_overlay_cmds(*self));
        }
        Frame { camera: self.camera, draws, transition }
    }
}

} // verus!
