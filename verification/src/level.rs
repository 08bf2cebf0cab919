//! Level loading: level source text decodes, character by character on an
//! integer grid, into entity constructor calls. A newline resets the column
//! and moves one row down; most cells also lay a backdrop tile behind what
//! they spawn; the two anchor markers reposition the two tracked entities
//! instead of spawning anything. An unrecognized character is a fatal load
//! error, reported to the caller.

use vstd::prelude::*;
use vstd::string::{StrSliceExecFns, StringExecFns};
use crate::math::{Vec2, Bounds};
use crate::components::{
    Pos, Physics, Collider, Children, ChildOf, Killable, Hazzard, Carryable, Controllable, Player,
    Cary, Exit, Sprite, Shooter, RemoveOnImpact, Horizontal, Vertical, spec_grid,
    spikes_hazard_bounds, divider_hazard_bounds, trap_hazard_bounds, STILL_FRAME_MS,
    make_tile_background, make_tile_solid, make_tile_movable, make_spikes, make_divider, make_trap,
    make_shooter, make_exit,
};
use crate::store::Store;
use crate::render::{Layer, TexAnchor, TexId};
use crate::render::{SPIKES_FRAMES, SPIKES_FRAME_MS, DIVIDER_FRAMES, DIVIDER_FRAME_MS};
use crate::render::{TRAP_CEIL_FRAMES, TRAP_CEIL_FRAME_MS};
use crate::world::{World, Camera, WorldState, CAM_SIZE_MIN};

verus! {

/// Most characters a level text may hold; beyond this the loader refuses it.
pub const LEVEL_CHAR_LIMIT: usize = 1_000_000;

/// Why a level failed to load.
#[derive(Clone, Copy, Debug, PartialEq, Eq, Structural)]
pub enum LoadError {
    /// The text holds this character, which names no entity.
    UnknownSymbol(char),
    /// The selected level does not exist.
    NoSuchLevel,
    /// The text is longer than the loader accepts.
    TooLarge,
}

/// The characters the level format knows.
pub open spec fn recognized(c: char) -> bool {
    ||| c == 'P'
    ||| c == 'C'
    ||| c == 'E'
    ||| c == '#'
    ||| c == ' '
    ||| c == 'M'
    ||| c == '^'
    ||| c == '>'
    ||| c == 'v'
    ||| c == '<'
    ||| c == '-'
    ||| c == '|'
    ||| c == 'u'
    ||| c == '\u{2282}'
    ||| c == 'n'
    ||| c == '\u{2283}'
    ||| c == 'S'
    ||| c == '.'
    ||| c == '\n'
    ||| c == '\r'
}

/// Index of the first character, from `i` on, the format does not know.
pub open spec fn first_unrecognized(text: Seq<char>, i: int) -> Option<int>
    decreases text.len() - i,
{
    if i < 0 || i >= text.len() {
        None
    } else if !recognized(text[i]) {
        Some(i)
    } else {
        first_unrecognized(text, i + 1)
    }
}

/// Grid column of the cell the character at index `i` lands on.
pub open spec fn col_of(text: Seq<char>, i: int) -> int
    decreases i,
{
    if i <= 0 {
        0
    } else if text[i - 1] == '\n' {
        0
    } else {
        col_of(text, i - 1) + 1
    }
}

/// Grid row of the cell the character at index `i` lands on.
pub open spec fn row_of(text: Seq<char>, i: int) -> int
    decreases i,
{
    if i <= 0 {
        0
    } else if text[i - 1] == '\n' {
        row_of(text, i - 1) - 1
    } else {
        row_of(text, i - 1)
    }
}

/// Last index below `i` holding the marker `m`.
pub open spec fn last_marker(text: Seq<char>, m: char, i: int) -> Option<int>
    decreases i,
{
    if i <= 0 {
        None
    } else if text[i - 1] == m {
        Some(i - 1)
    } else {
        last_marker(text, m, i - 1)
    }
}

/// Where the last occurrence of marker `m` puts its tracked entity: the
/// marker's cell, or the origin if the text never names it.
pub open spec fn marker_pos(text: Seq<char>, m: char) -> Vec2 {
    match last_marker(text, m, text.len() as int) {
        Some(j) => Vec2((1000 * col_of(text, j)) as i64, (1000 * row_of(text, j)) as i64),
        None => Vec2(0, 0),
    }
}


/// One spawned entity's rows across the spawn tables. The relation and
/// control tables — child list, child record, control intents, and the two
/// tracked records — never take part in a spawn and stay empty on spawned
/// ids, which the loader's contract states separately.
pub ghost struct SpawnRow {
    pub pos: Option<Pos>,
    pub physics: Option<Physics>,
    pub collider: Option<Collider>,
    pub killable: Option<Killable>,
    pub hazzard: Option<Hazzard>,
    pub carryable: Option<Carryable>,
    pub exit: Option<Exit>,
    pub sprite: Option<Sprite>,
    pub shooter: Option<Shooter>,
    pub remove_on_impact: Option<RemoveOnImpact>,
}

/// The spawn-table rows of entity `id`.
pub open spec fn row_at(s: Store, id: int) -> SpawnRow {
    SpawnRow {
        pos: s.pos@[id],
        physics: s.physics@[id],
        collider: s.collider@[id],
        killable: s.killable@[id],
        hazzard: s.hazzard@[id],
        carryable: s.carryable@[id],
        exit: s.exit@[id],
        sprite: s.sprite@[id],
        shooter: s.shooter@[id],
        remove_on_impact: s.remove_on_impact@[id],
    }
}

/// A row holding only a position on the grid and a sprite.
pub open spec fn pos_sprite_row(x: int, y: int, sprite: Sprite) -> SpawnRow {
    SpawnRow {
        pos: Some(Pos { curr: spec_grid(x, y), prev_interpol: spec_grid(x, y) }),
        physics: None,
        collider: None,
        killable: None,
        hazzard: None,
        carryable: None,
        exit: None,
        sprite: Some(sprite),
        shooter: None,
        remove_on_impact: None,
    }
}

/// The backdrop tile most cells lay behind what they spawn.
pub open spec fn backdrop_row(x: int, y: int) -> SpawnRow {
    pos_sprite_row(
        x,
        y,
        Sprite {
            offset: Vec2(0, -1000i64),
            tex_anchor: TexAnchor::Bottom,
            layer: Layer::Background,
            tex: TexId::TileFree,
            frames: 1,
            mirror: false,
            rotation: 0,
            frame_duration_ms: STILL_FRAME_MS,
            repeat: false,
            timer_ms: 0,
            running: false,
        },
    )
}

pub open spec fn solid_row(x: int, y: int) -> SpawnRow {
    SpawnRow {
        collider: Some(
            Collider { bounds: Bounds { min: Vec2(-500i64, 0), max: Vec2(500, 1000) } },
        ),
        ..pos_sprite_row(
            x,
            y,
            Sprite::spec_single(TexId::TileSolid, 1, TexAnchor::Bottom, Layer::ForegroundTile, 0),
        )
    }
}

pub open spec fn movable_row(x: int, y: int) -> SpawnRow {
    let b = Bounds { min: Vec2(-475i64, 25), max: Vec2(475, 975) };
    SpawnRow {
        collider: Some(Collider { bounds: b }),
        physics: Some(
            Physics {
                bounds: b,
                vel: Vec2(0, 0),
                gravity: true,
                collided: (Horizontal::Neither, Vertical::Neither),
            },
        ),
        carryable: Some(
            Carryable {
                detect_bounds: Bounds { min: Vec2(-600i64, 1000), max: Vec2(600, 1800) },
                carry_offset: Vec2(0, -1225i64),
                carried: false,
            },
        ),
        ..pos_sprite_row(
            x,
            y,
            Sprite::spec_single(TexId::TileMovable, 1, TexAnchor::Bottom, Layer::ForegroundTile, 1),
        )
    }
}

pub open spec fn spikes_row(x: int, y: int, rotation: u8) -> SpawnRow {
    SpawnRow {
        hazzard: Some(Hazzard { bounds: spikes_hazard_bounds(rotation) }),
        ..pos_sprite_row(
            x,
            y,
            Sprite::spec_ani(
                TexId::Spikes,
                SPIKES_FRAMES,
                TexAnchor::Bottom,
                Layer::Foreground,
                SPIKES_FRAME_MS,
                true,
                rotation,
            ),
        )
    }
}

pub open spec fn divider_row(x: int, y: int, vertical: bool) -> SpawnRow {
    SpawnRow {
        hazzard: Some(Hazzard { bounds: divider_hazard_bounds(vertical) }),
        ..pos_sprite_row(
            x,
            y,
            Sprite::spec_ani(
                TexId::Divider,
                DIVIDER_FRAMES,
                TexAnchor::Bottom,
                Layer::Foreground,
                DIVIDER_FRAME_MS,
                true,
                if vertical {
                    0
                } else {
                    1
                },
            ),
        )
    }
}

pub open spec fn trap_row(x: int, y: int, rotation: u8) -> SpawnRow {
    SpawnRow {
        hazzard: Some(Hazzard { bounds: trap_hazard_bounds(rotation) }),
        ..pos_sprite_row(
            x,
            y,
            Sprite::spec_ani(
                TexId::TrapCeil,
                TRAP_CEIL_FRAMES,
                TexAnchor::Bottom,
                Layer::Foreground,
                TRAP_CEIL_FRAME_MS,
                true,
                rotation,
            ),
        )
    }
}

pub open spec fn shooter_row(x: int, y: int) -> SpawnRow {
    SpawnRow {
        collider: Some(
            Collider { bounds: Bounds { min: Vec2(-500i64, 0), max: Vec2(500, 1000) } },
        ),
        shooter: Some(Shooter { cooldown_ms: 2000 }),
        ..pos_sprite_row(
            x,
            y,
            Sprite {
                offset: Vec2(0, 500),
                tex_anchor: TexAnchor::Center,
                layer: Layer::ForegroundTile,
                tex: TexId::Shooter,
                frames: 1,
                mirror: false,
                rotation: 0,
                frame_duration_ms: STILL_FRAME_MS,
                repeat: false,
                timer_ms: 0,
                running: false,
            },
        )
    }
}

pub open spec fn exit_row(x: int, y: int) -> SpawnRow {
    SpawnRow {
        exit: Some(Exit(Bounds { min: Vec2(-150i64, -200i64), max: Vec2(150, 1400) })),
        ..pos_sprite_row(
            x,
            y,
            Sprite::spec_single(TexId::Exit, 1, TexAnchor::Bottom, Layer::Foreground, 0),
        )
    }
}

/// Rows the character at one cell lays down, in spawn order: the entity it
/// names, then the backdrop tile it also lays. Solid terrain and shooters
/// lay no backdrop; the wall comment character and line breaks lay nothing.
pub open spec fn cell_rows(c: char, x: int, y: int) -> Seq<SpawnRow> {
    if c == 'P' || c == 'C' || c == ' ' {
        seq![backdrop_row(x, y)]
    } else if c == 'E' {
        seq![exit_row(x, y), backdrop_row(x, y)]
    } else if c == '#' {
        seq![solid_row(x, y)]
    } else if c == 'M' {
        seq![movable_row(x, y), backdrop_row(x, y)]
    } else if c == '^' {
        seq![spikes_row(x, y, 0), backdrop_row(x, y)]
    } else if c == '>' {
        seq![spikes_row(x, y, 1), backdrop_row(x, y)]
    } else if c == 'v' {
        seq![spikes_row(x, y, 2), backdrop_row(x, y)]
    } else if c == '<' {
        seq![spikes_row(x, y, 3), backdrop_row(x, y)]
    } else if c == '-' {
        seq![divider_row(x, y, false), backdrop_row(x, y)]
    } else if c == '|' {
        seq![divider_row(x, y, true), backdrop_row(x, y)]
    } else if c == 'u' {
        seq![trap_row(x, y, 0), backdrop_row(x, y)]
    } else if c == '\u{2282}' {
        seq![trap_row(x, y, 1), backdrop_row(x, y)]
    } else if c == 'n' {
        seq![trap_row(x, y, 2), backdrop_row(x, y)]
    } else if c == '\u{2283}' {
        seq![trap_row(x, y, 3), backdrop_row(x, y)]
    } else if c == 'S' {
        seq![shooter_row(x, y)]
    } else {
        Seq::empty()
    }
}

/// All the rows the first `i` characters lay down, in spawn order.
pub open spec fn rows_of(text: Seq<char>, i: int) -> Seq<SpawnRow>
    decreases i,
{
    if i <= 0 {
        Seq::empty()
    } else {
        rows_of(text, i - 1) + cell_rows(text[i - 1], col_of(text, i - 1), row_of(text, i - 1))
    }
}

/// A cell lays at most two rows.
proof fn lemma_rows_len(text: Seq<char>, i: int)
    requires
        i >= 0,
    ensures
        rows_of(text, i).len() <= 2 * i,
    decreases i,
{
    if i > 0 {
        lemma_rows_len(text, i - 1);
    }
}

/// Spawns one entity holding exactly the given spawn-table components; the
/// relation and control tables stay empty on it, and no other row changes.
fn spawn_row(
    s: &mut Store,
    pos: Pos,
    physics: Option<Physics>,
    collider: Option<Collider>,
    killable: Option<Killable>,
    hazzard: Option<Hazzard>,
    carryable: Option<Carryable>,
    exit: Option<Exit>,
    sprite: Option<Sprite>,
    shooter: Option<Shooter>,
    remove_on_impact: Option<RemoveOnImpact>,
)
    requires
        old(s).wf(),
        old(s).n() < 1_000_000_000,
        pos.wf(),
        physics matches Some(v) ==> v.wf(),
        collider matches Some(v) ==> v.wf(),
        killable matches Some(v) ==> v.wf(),
        hazzard matches Some(v) ==> v.wf(),
        carryable matches Some(v) ==> v.wf(),
        exit matches Some(v) ==> v.wf(),
        sprite matches Some(v) ==> v.wf(),
    ensures
        final(s).wf(),
        final(s).n() == old(s).n() + 1,
        row_at(*final(s), old(s).n() as int) == (SpawnRow {
            pos: Some(pos),
            physics,
            collider,
            killable,
            hazzard,
            carryable,
            exit,
            sprite,
            shooter,
            remove_on_impact,
        }),
        forall|id: int|
            0 <= id < old(s).n() ==> #[trigger] row_at(*final(s), id) == row_at(*old(s), id),
        final(s).pos@ == old(s).pos@.push(None::<Pos>).update(old(s).n() as int, Some(pos)),
        final(s).physics@ == old(s).physics@.push(None::<Physics>).update(
            old(s).n() as int,
            physics,
        ),
        final(s).collider@ == old(s).collider@.push(None::<Collider>).update(
            old(s).n() as int,
            collider,
        ),
        final(s).killable@ == old(s).killable@.push(None::<Killable>).update(
            old(s).n() as int,
            killable,
        ),
        final(s).hazzard@ == old(s).hazzard@.push(None::<Hazzard>).update(
            old(s).n() as int,
            hazzard,
        ),
        final(s).carryable@ == old(s).carryable@.push(None::<Carryable>).update(
            old(s).n() as int,
            carryable,
        ),
        final(s).exit@ == old(s).exit@.push(None::<Exit>).update(old(s).n() as int, exit),
        final(s).sprite@ == old(s).sprite@.push(None::<Sprite>).update(
            old(s).n() as int,
            sprite,
        ),
        final(s).shooter@ == old(s).shooter@.push(None::<Shooter>).update(
            old(s).n() as int,
            shooter,
        ),
        final(s).remove_on_impact@ == old(s).remove_on_impact@.push(
            None::<RemoveOnImpact>,
        ).update(old(s).n() as int, remove_on_impact),
        final(s).children@ == old(s).children@.push(None::<Children>),
        final(s).child_of@ == old(s).child_of@.push(None::<ChildOf>),
        final(s).controllable@ == old(s).controllable@.push(None::<Controllable>),
        final(s).player@ == old(s).player@.push(None::<Player>),
        final(s).cary@ == old(s).cary@.push(None::<Cary>),
{
    let id = s.spawn();
    s.pos.set(id, Some(pos));
    s.physics.set(id, physics);
    s.collider.set(id, collider);
    s.killable.set(id, killable);
    s.hazzard.set(id, hazzard);
    s.carryable.set(id, carryable);
    s.exit.set(id, exit);
    s.sprite.set(id, sprite);
    s.shooter.set(id, shooter);
    s.remove_on_impact.set(id, remove_on_impact);
}

/// Decodes level text into a fresh world: solid and movable tiles, spikes,
/// dividers, traps, shooters and exits spawn at their cells, the two anchor
/// markers reposition the tracked flyer and companion, and every recognized
/// cell except solid terrain, shooters, the wall comment character and line
/// breaks also lays a backdrop tile. Returns the first unknown character as
/// the load error.
#[verifier::rlimit(100)]
pub fn load_level(text: &str) -> (r: Result<World, LoadError>)
    ensures
        r is Ok <==> (text@.len() <= LEVEL_CHAR_LIMIT && first_unrecognized(text@, 0) is None),
        match r {
            Ok(w) => {
                &&& w.wf()
                &&& w.state == WorldState::Running
                &&& w.player == 0
                &&& w.cary == 1
                &&& w.time_ms == 0
                &&& w.store.pos@[0] == Some(
                    Pos { curr: marker_pos(text@, 'P'), prev_interpol: Vec2(0, 0) },
                )
                &&& w.store.pos@[1] == Some(
                    Pos { curr: marker_pos(text@, 'C'), prev_interpol: Vec2(0, 0) },
                )
                &&& w.camera == (Camera { pos: marker_pos(text@, 'C'), size: CAM_SIZE_MIN })
                // besides the two tracked entities, the store holds exactly
                // the rows the text lays down, cell by cell, in spawn order
                &&& w.n() == 2 + rows_of(text@, text@.len() as int).len()
                &&& forall|k: int|
                    0 <= k < rows_of(text@, text@.len() as int).len() ==> #[trigger] row_at(
                        w.store,
                        2 + k,
                    ) == rows_of(text@, text@.len() as int)[k]
                // spawned entities never carry relation or control records
                &&& forall|id: int|
                    2 <= id < w.n() ==> ((#[trigger] w.store.children@[id]) is None
                        && w.store.child_of@[id] is None && w.store.controllable@[id] is None
                        && w.store.player@[id] is None && w.store.cary@[id] is None)
            },
            Err(LoadError::UnknownSymbol(c)) => ({
                let fu = first_unrecognized(text@, 0);
                text@.len() <= LEVEL_CHAR_LIMIT && fu is Some && c == text@[fu->Some_0]
            }),
            Err(LoadError::TooLarge) => text@.len() > LEVEL_CHAR_LIMIT,
            Err(LoadError::NoSuchLevel) => false,
        },
{
    let len = text.unicode_len();
    if len > LEVEL_CHAR_LIMIT {
        return Err(LoadError::TooLarge);
    }
    let mut w = World::new();
    let mut x: i64 = 0;
    let mut y: i64 = 0;
    let mut i: usize = 0;
    while i < len
        invariant
            i <= len,
            len == text@.len(),
            len <= LEVEL_CHAR_LIMIT,
            w.wf(),
            w.state == WorldState::Running,
            w.player == 0,
            w.cary == 1,
            w.time_ms == 0,
            w.n() == 2 + rows_of(text@, i as int).len(),
            x == col_of(text@, i as int),
            y == row_of(text@, i as int),
            0 <= x <= i,
            -(i as int) <= y <= 0,
            first_unrecognized(text@, i as int) == first_unrecognized(text@, 0),
            w.store.pos@[0] == Some(
                Pos {
                    curr: (match last_marker(text@, 'P', i as int) {
                        Some(j) => Vec2(
                            (1000 * col_of(text@, j)) as i64,
                            (1000 * row_of(text@, j)) as i64,
                        ),
                        None => Vec2(0, 0),
                    }),
                    prev_interpol: Vec2(0, 0),
                },
            ),
            w.store.pos@[1] == Some(
                Pos {
                    curr: (match last_marker(text@, 'C', i as int) {
                        Some(j) => Vec2(
                            (1000 * col_of(text@, j)) as i64,
                            (1000 * row_of(text@, j)) as i64,
                        ),
                        None => Vec2(0, 0),
                    }),
                    prev_interpol: Vec2(0, 0),
                },
            ),
            forall|k: int|
                0 <= k < rows_of(text@, i as int).len() ==> #[trigger] row_at(w.store, 2 + k)
                    == rows_of(text@, i as int)[k],
            forall|id: int|
                2 <= id < w.n() ==> ((#[trigger] w.store.children@[id]) is None
                    && w.store.child_of@[id] is None && w.store.controllable@[id] is None
                    && w.store.player@[id] is None && w.store.cary@[id] is None),
        decreases len - i,
    {
        proof {
            lemma_rows_len(text@, i as int);
        }
        let ghost s_pre = w.store;
        let ghost x0 = x;
        let ghost y0 = y;
        let c = text.get_char(i);
        let mut background = true;
        if c == 'P' {
            let p0: Pos = match w.store.pos[0] {
                Some(p) => p,
                None => unreached(),
            };
            w.store.pos.set(0, Some(Pos { curr: Vec2(1000 * x, 1000 * y), ..p0 }));
        } else if c == 'C' {
            let p1: Pos = match w.store.pos[1] {
                Some(p) => p,
                None => unreached(),
            };
            w.store.pos.set(1, Some(Pos { curr: Vec2(1000 * x, 1000 * y), ..p1 }));
        } else if c == 'E' {
            let (tp, te, ts) = make_exit(x, y);
            spawn_row(&mut w.store, tp, None, None, None, None, None, Some(te), Some(ts), None, None);
            proof {
                assert(row_at(w.store, s_pre.n() as int) == exit_row(x0 as int, y0 as int));
            }
        } else if c == '#' {
            background = false;
            let (tp, ts, tc) = make_tile_solid(x, y);
            spawn_row(&mut w.store, tp, None, Some(tc), None, None, None, None, Some(ts), None, None);
            proof {
                assert(row_at(w.store, s_pre.n() as int) == solid_row(x0 as int, y0 as int));
            }
        } else if c == ' ' {
        } else if c == 'M' {
            let (tp, ts, tc, tph, tca) = make_tile_movable(x, y);
            spawn_row(
                &mut w.store,
                tp,
                Some(tph),
                Some(tc),
                None,
                None,
                Some(tca),
                None,
                Some(ts),
                None,
                None,
            );
            proof {
                assert(row_at(w.store, s_pre.n() as int) == movable_row(x0 as int, y0 as int));
            }
        } else if c == '^' {
            let (tp, th, ts) = make_spikes(x, y, 0);
            spawn_row(&mut w.store, tp, None, None, None, Some(th), None, None, Some(ts), None, None);
            proof {
                assert(row_at(w.store, s_pre.n() as int) == spikes_row(x0 as int, y0 as int, 0));
            }
        } else if c == '>' {
            let (tp, th, ts) = make_spikes(x, y, 1);
            spawn_row(&mut w.store, tp, None, None, None, Some(th), None, None, Some(ts), None, None);
            proof {
                assert(row_at(w.store, s_pre.n() as int) == spikes_row(x0 as int, y0 as int, 1));
            }
        } else if c == 'v' {
            let (tp, th, ts) = make_spikes(x, y, 2);
            spawn_row(&mut w.store, tp, None, None, None, Some(th), None, None, Some(ts), None, None);
            proof {
                assert(row_at(w.store, s_pre.n() as int) == spikes_row(x0 as int, y0 as int, 2));
            }
        } else if c == '<' {
            let (tp, th, ts) = make_spikes(x, y, 3);
            spawn_row(&mut w.store, tp, None, None, None, Some(th), None, None, Some(ts), None, None);
            proof {
                assert(row_at(w.store, s_pre.n() as int) == spikes_row(x0 as int, y0 as int, 3));
            }
        } else if c == '-' {
            let (tp, th, ts) = make_divider(x, y, false);
            spawn_row(&mut w.store, tp, None, None, None, Some(th), None, None, Some(ts), None, None);
            proof {
                assert(row_at(w.store, s_pre.n() as int) == divider_row(
                    x0 as int,
                    y0 as int,
                    false,
                ));
            }
        } else if c == '|' {
            let (tp, th, ts) = make_divider(x, y, true);
            spawn_row(&mut w.store, tp, None, None, None, Some(th), None, None, Some(ts), None, None);
            proof {
                assert(row_at(w.store, s_pre.n() as int) == divider_row(
                    x0 as int,
                    y0 as int,
                    true,
                ));
            }
        } else if c == 'u' {
            let (tp, th, ts) = make_trap(x, y, 0);
            spawn_row(&mut w.store, tp, None, None, None, Some(th), None, None, Some(ts), None, None);
            proof {
                assert(row_at(w.store, s_pre.n() as int) == trap_row(x0 as int, y0 as int, 0));
            }
        } else if c == '\u{2282}' {
            let (tp, th, ts) = make_trap(x, y, 1);
            spawn_row(&mut w.store, tp, None, None, None, Some(th), None, None, Some(ts), None, None);
            proof {
                assert(row_at(w.store, s_pre.n() as int) == trap_row(x0 as int, y0 as int, 1));
            }
        } else if c == 'n' {
            let (tp, th, ts) = make_trap(x, y, 2);
            spawn_row(&mut w.store, tp, None, None, None, Some(th), None, None, Some(ts), None, None);
            proof {
                assert(row_at(w.store, s_pre.n() as int) == trap_row(x0 as int, y0 as int, 2));
            }
        } else if c == '\u{2283}' {
            let (tp, th, ts) = make_trap(x, y, 3);
            spawn_row(&mut w.store, tp, None, None, None, Some(th), None, None, Some(ts), None, None);
            proof {
                assert(row_at(w.store, s_pre.n() as int) == trap_row(x0 as int, y0 as int, 3));
            }
        } else if c == 'S' {
            background = false;
            let (tp, ts, tc, tsh) = make_shooter(x, y);
            spawn_row(
                &mut w.store,
                tp,
                None,
                Some(tc),
                None,
                None,
                None,
                None,
                Some(ts),
                Some(tsh),
                None,
            );
            proof {
                assert(row_at(w.store, s_pre.n() as int) == shooter_row(x0 as int, y0 as int));
            }
        } else if c == '.' {
            background = false;
        } else if c == '\n' {
            background = false;
            y = y - 1;
            x = -1;
        } else if c == '\r' {
            background = false;
        } else {
            return Err(LoadError::UnknownSymbol(c));
        }
        let ghost s_mid = w.store;
        if background {
            let (tp, ts) = make_tile_background(x, y);
            spawn_row(&mut w.store, tp, None, None, None, None, None, None, Some(ts), None, None);
            proof {
                assert(row_at(w.store, s_mid.n() as int) == backdrop_row(x0 as int, y0 as int));
            }
        }
        proof {
            let rows0 = rows_of(text@, i as int);
            let rows1 = rows_of(text@, i as int + 1);
            assert(rows1 == rows0 + cell_rows(text@[i as int], x0 as int, y0 as int));
            assert forall|k: int| 0 <= k < rows1.len() implies #[trigger] row_at(w.store, 2 + k)
                == rows1[k] by {
                if k < rows0.len() {
                    assert(rows1[k] == rows0[k]);
                    assert(row_at(s_mid, 2 + k) == row_at(s_pre, 2 + k));
                    assert(row_at(w.store, 2 + k) == row_at(s_mid, 2 + k));
                } else {
                    assert(rows1[k] == cell_rows(text@[i as int], x0 as int, y0 as int)[k
                        - rows0.len()]);
                }
            }
            assert(w.n() == 2 + rows1.len());
        }
        x = x + 1;
        i = i + 1;
    }
    let cpos: Vec2 = match w.store.pos[w.cary] {
        Some(p) => p.curr,
        None => unreached(),
    };
    w.camera = Camera { pos: cpos, size: CAM_SIZE_MIN };
    Ok(w)
}

/// The ordered set of levels of a session, and which one is up.
pub struct Levels {
    /// Index of the current level.
    pub level: usize,
    pub level_strings: Vec<String>,
}

impl Levels {
    /// The built-in level sequence.
    pub fn default() -> (r: Levels)
        ensures
            r.level == 0,
            r.level_strings@.len() == 2,
    {
        let mut level_strings: Vec<String> = Vec::new();
        level_strings.push(
            String::from_str(
                "################\n#              #\n#  P           #\n#          E   #\n#  C   M       #\n################",
            ),
        );
        level_strings.push(
            String::from_str(
                "####################\n#                  #\n#  P    |          #\n#       -      E   #\n#  C  M    ^^      #\n####################",
            ),
        );
        Levels { level: 0, level_strings }
    }

    /// A session over the given level texts, starting at the first.
    pub fn new(level_strings: Vec<String>) -> (r: Levels)
        ensures
            r.level == 0,
            r.level_strings == level_strings,
    {
        Levels { level: 0, level_strings }
    }

    /// Advances to the next level if one is left; says whether it did.
    pub fn next(&mut self) -> (r: bool)
        ensures
            r == (old(self).level + 1 < old(self).level_strings@.len()),
            final(self).level_strings == old(self).level_strings,
            final(self).level == if old(self).level + 1 < old(self).level_strings@.len() {
                old(self).level + 1
            } else {
                old(self).level as int
            },
    {
        if self.level_strings.len() > 0 && self.level < self.level_strings.len() - 1 {
            self.level = self.level + 1;
            true
        } else {
            false
        }
    }

    /// Loads the current level's text into a fresh world.
    pub fn load(&self) -> (r: Result<World, LoadError>)
        ensures
            self.level >= self.level_strings@.len() ==> r == Err::<World, LoadError>(
                LoadError::NoSuchLevel,
            ),
            self.level < self.level_strings@.len() ==> ({
                let text = self.level_strings@[self.level as int]@;
                &&& (r is Ok <==> (text.len() <= LEVEL_CHAR_LIMIT && first_unrecognized(text, 0)
                    is None))
                &&& match r {
                    Ok(w) => {
                        &&& w.wf()
                        &&& w.state == WorldState::Running
                        &&& w.player == 0
                        &&& w.cary == 1
                        &&& w.store.pos@[0] == Some(
                            Pos { curr: marker_pos(text, 'P'), prev_interpol: Vec2(0, 0) },
                        )
                        &&& w.store.pos@[1] == Some(
                            Pos { curr: marker_pos(text, 'C'), prev_interpol: Vec2(0, 0) },
                        )
                        &&& w.camera == (Camera { pos: marker_pos(text, 'C'), size: CAM_SIZE_MIN })
                        &&& w.n() == 2 + rows_of(text, text.len() as int).len()
                        &&& forall|k: int|
                            0 <= k < rows_of(text, text.len() as int).len() ==> #[trigger] row_at(
                                w.store,
                                2 + k,
                            ) == rows_of(text, text.len() as int)[k]
                        &&& forall|id: int|
                            2 <= id < w.n() ==> ((#[trigger] w.store.children@[id]) is None
                                && w.store.child_of@[id] is None && w.store.controllable@[id]
                                is None && w.store.player@[id] is None && w.store.cary@[id]
                                is None)
                    },
                    Err(LoadError::UnknownSymbol(c)) => ({
                        let fu = first_unrecognized(text, 0);
                        fu is Some && c == text[fu->Some_0]
                    }),
                    Err(LoadError::TooLarge) => text.len() > LEVEL_CHAR_LIMIT,
                    Err(LoadError::NoSuchLevel) => false,
                }
            }),
    {
        if self.level >= self.level_strings.len() {
            return Err(LoadError::NoSuchLevel);
        }
        load_level(self.level_strings[self.level].as_str())
    }
}

} // verus!
