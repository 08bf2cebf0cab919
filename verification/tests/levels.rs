//! Level decoding and the level sequence.

use cary::level::{load_level, Levels, LoadError, LEVEL_CHAR_LIMIT};
use cary::math::Vec2;
use cary::world::WorldState;

#[test]
fn small_room_loads_with_solid_shell_and_placed_player() {
    let w = load_level("#####\n#P  #\n#####").expect("the room is well formed");
    assert!(matches!(w.state, WorldState::Running));
    assert_eq!(w.player, 0);
    assert_eq!(w.cary, 1);
    // the tracked flyer was repositioned to the interior cell
    assert_eq!(w.store.pos[0].unwrap().curr, Vec2(1000, -1000));
    // the camera centers on the companion, which no marker moved
    assert_eq!(w.store.pos[1].unwrap().curr, Vec2(0, 0));
    assert_eq!(w.camera.pos, Vec2(0, 0));

    // floor, ceiling and walls are solid: twelve collider tiles in all
    let solid_cells = [
        (0, 0), (1, 0), (2, 0), (3, 0), (4, 0),
        (0, -1), (4, -1),
        (0, -2), (1, -2), (2, -2), (3, -2), (4, -2),
    ];
    let mut colliders = 0;
    for id in 0..w.store.pos.len() {
        if w.store.collider[id].is_some() {
            colliders += 1;
            let p = w.store.pos[id].unwrap().curr;
            assert!(
                solid_cells.iter().any(|(x, y)| p == Vec2(1000 * x, 1000 * y)),
                "collider off the walls at {:?}",
                p
            );
        }
    }
    assert_eq!(colliders, 12);

    // the three non-terrain interior cells lay backdrop tiles
    let backdrop_cells = [(1, -1), (2, -1), (3, -1)];
    for (x, y) in backdrop_cells {
        let cell = Vec2(1000 * x, 1000 * y);
        assert!(
            (2..w.store.pos.len()).any(|id| w.store.pos[id].map(|p| p.curr) == Some(cell)
                && w.store.collider[id].is_none()
                && w.store.sprite[id].is_some()),
            "no backdrop at {:?}",
            cell
        );
    }

    // two tracked entities, twelve tiles, three backdrops
    assert_eq!(w.store.pos.len(), 17);
}

#[test]
fn both_anchor_markers_reposition_their_entities() {
    let w = load_level("P.C").expect("markers alone are a valid level");
    assert_eq!(w.store.pos[0].unwrap().curr, Vec2(0, 0));
    assert_eq!(w.store.pos[1].unwrap().curr, Vec2(2000, 0));
    assert_eq!(w.camera.pos, Vec2(2000, 0));
    // the later marker wins
    let w = load_level("C..C").expect("repeated markers are fine");
    assert_eq!(w.store.pos[1].unwrap().curr, Vec2(3000, 0));
}

#[test]
fn newline_resets_the_column_and_descends_one_row() {
    let w = load_level("#\n\n.#").expect("newlines are fine");
    // the second tile sits at column 1 of row -2
    let mut tiles: Vec<Vec2> = Vec::new();
    for id in 2..w.store.pos.len() {
        if w.store.collider[id].is_some() {
            tiles.push(w.store.pos[id].unwrap().curr);
        }
    }
    assert_eq!(tiles, vec![Vec2(0, 0), Vec2(1000, -2000)]);
}

#[test]
fn every_placeable_symbol_is_accepted() {
    let text = "PCE# M^>v<-|u\u{2282}n\u{2283}S.\r\n";
    assert!(load_level(text).is_ok());
}

#[test]
fn unknown_symbol_is_a_fatal_load_error() {
    assert_eq!(load_level("##Q#").err(), Some(LoadError::UnknownSymbol('Q')));
    // the first offender is the one reported
    assert_eq!(load_level("#?Q").err(), Some(LoadError::UnknownSymbol('?')));
}

#[test]
fn oversized_text_is_refused() {
    let text = " ".repeat(LEVEL_CHAR_LIMIT + 1);
    assert_eq!(load_level(&text).err(), Some(LoadError::TooLarge));
}

#[test]
fn level_sequence_advances_to_the_last_level_only() {
    let mut levels = Levels::new(vec!["P".to_string(), "C".to_string()]);
    assert!(levels.load().is_ok());
    assert!(levels.next());
    assert!(levels.load().is_ok());
    assert!(!levels.next());
    assert!(levels.load().is_ok());
}

#[test]
fn empty_level_sequence_has_no_level_to_load() {
    let levels = Levels::new(Vec::new());
    assert_eq!(levels.load().err(), Some(LoadError::NoSuchLevel));
}

#[test]
fn builtin_levels_all_load() {
    let mut levels = Levels::default();
    loop {
        let w = levels.load().expect("every built-in level is well formed");
        assert!(matches!(w.state, WorldState::Running));
        if !levels.next() {
            break;
        }
    }
}
