use tiled::hex::stagger::{Axis, Index};
use tiled::hex::{length, Axial, Hex};
use tiled::quads::create_indices_for_quads;
use tiled::rpg::{Source, TileId, A1, A2, A5, B, SHAPES};
use tiled::tile::{make_terrain, set_terrain_corner, Tileset, Tilesets};
use tiled::tilemap::{Erase, Link, Lock, Tilemap, NO_TILE};

#[test]
fn contains_id() {
    let a = Tileset::new("first", 1, 5);
    let b = Tileset::new("second", 8, 2);
    let ts = Tilesets {
        tilesets: vec![a, b],
    };

    assert!(!ts.contains_id(0));
    assert!(ts.contains_id(1));
    assert!(ts.contains_id(2));
    assert!(ts.contains_id(3));
    assert!(ts.contains_id(4));
    assert!(ts.contains_id(5));
    assert!(!ts.contains_id(6));
    assert!(!ts.contains_id(7));
    assert!(ts.contains_id(8));
    assert!(ts.contains_id(9));
    assert!(!ts.contains_id(10));
}

#[test]
fn find_tileset_gives_the_owner() {
    let ts = Tilesets {
        tilesets: vec![Tileset::new("first", 1, 5), Tileset::new("second", 8, 2)],
    };
    assert_eq!(ts.find_tileset(9).map(|t| t.name.clone()), Some("second".to_string()));
    assert_eq!(ts.find_tileset(1).map(|t| t.name.clone()), Some("first".to_string()));
    assert!(ts.find_tileset(7).is_none());
}

#[test]
fn terrain_words() {
    assert_eq!(make_terrain(1, 2, 3, 4), 0x0102_0304);
    assert_eq!(make_terrain(0x1ff, 0, 0, 0x100), 0xff00_0000);
    let t = make_terrain(1, 2, 3, 4);
    assert_eq!(set_terrain_corner(t, 0, 9), 0x0902_0304);
    assert_eq!(set_terrain_corner(t, 3, 0x1aa), 0x0102_03aa);
    assert_eq!(set_terrain_corner(t, 2, 0), 0x0102_0004);
}

#[test]
fn hex_length_and_cube() {
    assert_eq!(length(3, -1, -2), 3);
    assert_eq!(length(0, 0, 0), 0);
    let c = Axial { q: 2, r: -5 }.to_cube();
    assert_eq!((c.x, c.y, c.z), (2, 3, -5));
}

#[test]
fn hex_staggered_round_trip() {
    let h = Hex::staggered(3, 2, Index::Even, Axis::Q);
    assert_eq!(h, Hex::new(3, -3, 0));
    assert_eq!(h.to_staggered(Index::Even, Axis::Q), (3, 2));
    let h = Hex::staggered(3, 2, Index::Odd, Axis::Q);
    assert_eq!(h, Hex::new(3, -4, 1));
    assert_eq!(h.to_staggered(Index::Odd, Axis::Q), (3, 2));
    let h = Hex::staggered(-3, 5, Index::Even, Axis::R);
    assert_eq!(h.to_staggered(Index::Even, Axis::R), (-3, 5));
    let h = Hex::staggered(-3, -5, Index::Odd, Axis::R);
    assert_eq!(h.to_staggered(Index::Odd, Axis::R), (-3, -5));
}

#[test]
fn hex_rotations() {
    let mut h = Hex::new(1, -3, 2);
    h.rotate_left();
    assert_eq!(h, Hex::new(3, -2, -1));
    for _ in 0..5 {
        h.rotate_left();
    }
    assert_eq!(h, Hex::new(1, -3, 2));
    h.rotate_right();
    assert_eq!(h, Hex::new(-2, 3, -1));
    h.rotate_right();
    assert_eq!(h, Hex::new(1, -3, 2));
}

#[test]
fn hex_add_sub() {
    let a = Hex::new(1, -3, 2);
    let b = Hex::new(-4, 1, 3);
    assert_eq!(a + b, Hex::new(-3, -2, 5));
    assert_eq!((a + b) - b, a);
    let mut c = a;
    c.add_assign(b);
    c.sub_assign(a);
    assert_eq!(c, b);
}

#[test]
fn rpg_autotiles() {
    let t = TileId::make_autotile(3, 5);
    assert_eq!(t.id, A1 + 3 * SHAPES + 5);
    assert!(t.is_autotile());
    assert_eq!(t.autotile_kind(), 3);
    assert_eq!(t.autotile_shape(), 5);
    assert!(t.is_same_kind(TileId::make_autotile(3, 40)));
    assert!(!t.is_same_kind(TileId::make_autotile(4, 5)));
    assert!(!TileId { id: 7 }.is_autotile());
    assert!(TileId { id: 7 }.is_same_kind(TileId { id: 7 }));
}

#[test]
fn rpg_sheets() {
    assert_eq!(TileId { id: A1 }.source(), Some(Source::A1));
    assert_eq!(TileId { id: A2 - 1 }.source(), Some(Source::A1));
    assert_eq!(TileId { id: A2 }.source(), Some(Source::A2));
    assert_eq!(TileId { id: A5 }.source(), Some(Source::A5));
    assert_eq!(TileId { id: B }.source(), Some(Source::B));
    assert_eq!(TileId { id: -1 }.source(), None);
    assert!(TileId { id: A1 }.is_a1());
    assert!(TileId { id: A2 }.is_a2());
    assert!(TileId { id: 300 }.is_c());
    assert!(TileId { id: 600 }.is_d());
    assert!(TileId { id: 800 }.is_e());
    assert!(!TileId { id: 800 }.is_b());
    assert!(TileId { id: 5 }.is_visible());
    assert!(!TileId { id: B }.is_visible());
}

#[test]
fn quad_indices() {
    let mut v = vec![0u16; 12];
    create_indices_for_quads(&mut v, 2);
    assert_eq!(v, vec![0, 1, 2, 0, 2, 3, 4, 5, 6, 4, 6, 7]);
}

#[test]
fn tilemap_new_is_empty() {
    let tm = Tilemap::new(4, 3, 2, 8, 8, 10);
    assert_eq!(tm.dimensions(), (4, 3));
    assert_eq!(tm.tile(1, 1), vec![NO_TILE; 8]);
    assert_eq!(tm.link(0, 0), None);
}

#[test]
fn tilemap_set_tile_then_tile() {
    let mut tm = Tilemap::new(4, 3, 2, 8, 8, 10);
    tm.set_tile(2, 1, 1, 7);
    let mut expected = vec![NO_TILE; 8];
    expected[1] = 7;
    assert_eq!(tm.tile(2, 1), expected);
    assert_eq!(tm.tile(1, 2), vec![NO_TILE; 8]);
}

#[test]
fn tilemap_brush_then_erase() {
    let mut tm = Tilemap::new(4, 3, 2, 8, 8, 10);
    tm.define_tile(5, 0xff, None);
    tm.select_tile(0);
    tm.select_layer(1);
    tm.brush(1, 1);
    let mut expected = vec![NO_TILE; 8];
    expected[1] = 5;
    assert_eq!(tm.tile(1, 1), expected);
    assert_eq!(tm.erase(1, 1, Some(Erase::Any)), Some(Erase::Brushonly));
    assert_eq!(tm.tile(1, 1), vec![NO_TILE; 8]);
    assert_eq!(tm.erase(1, 1, Some(Erase::Any)), None);
}

#[test]
fn tilemap_brush_respects_locks() {
    let mut tm = Tilemap::new(4, 3, 2, 8, 8, 10);
    tm.define_tile(5, 0xff, None);
    tm.select_tile(0);
    tm.select_layer(1);
    tm.set_layer_lock(1, Lock::Locked);
    tm.brush(1, 1);
    assert_eq!(tm.tile(1, 1), vec![NO_TILE; 8]);
    tm.set_solo_layer(1);
    tm.brush(1, 1);
    assert_eq!(tm.tile(1, 1)[1], 5);
}

#[test]
fn tilemap_erase_any_and_all() {
    let mut tm = Tilemap::new(4, 3, 3, 8, 8, 10);
    tm.define_tile(5, 0xff, None);
    tm.define_tile(6, 0xff, None);
    tm.select_tile(0);
    tm.set_tile(0, 0, 0, 6);
    tm.set_tile(0, 0, 1, 6);
    tm.set_tile(0, 0, 2, 6);
    // No layer selected and the brush tile is not in the cell: the top tile goes.
    assert_eq!(tm.erase(0, 0, Some(Erase::Any)), Some(Erase::Any));
    assert_eq!(&tm.tile(0, 0)[..3], &[6, 6, NO_TILE]);
    assert_eq!(tm.erase(0, 0, Some(Erase::All)), Some(Erase::All));
    assert_eq!(&tm.tile(0, 0)[..3], &[NO_TILE, NO_TILE, NO_TILE]);
    assert_eq!(tm.erase(0, 0, None), None);
}

#[test]
fn tilemap_links() {
    let mut tm = Tilemap::new(4, 3, 2, 8, 8, 10);
    tm.set_link(0, 0, 2, 1);
    assert_eq!(tm.link(0, 0), Some(Link { x: 2, y: 1 }));
    tm.set_link(0, 0, -1, -1);
    assert_eq!(tm.link(0, 0), None);
}

#[test]
fn tilemap_background() {
    let mut tm = Tilemap::new(4, 3, 2, 8, 8, 10);
    tm.set_tile(1, 1, 0, 3);
    tm.set_background_tile(9);
    assert_eq!(tm.tile(0, 0)[0], 9);
    assert_eq!(tm.tile(1, 1)[0], 3);
}

#[test]
fn tilemap_brush_without_selected_layer_paints_lowest_legit_layer() {
    let mut tm = Tilemap::new(4, 3, 3, 8, 8, 10);
    tm.define_tile(5, 0xff, None);
    tm.define_tile(6, 0b110, None);
    tm.select_tile(0);
    tm.brush(1, 1);
    assert_eq!(&tm.tile(1, 1)[..3], &[5, NO_TILE, NO_TILE]);
    tm.select_tile(1);
    tm.brush(2, 2);
    assert_eq!(&tm.tile(2, 2)[..3], &[NO_TILE, 6, NO_TILE]);
    tm.set_layer_lock(0, Lock::Protected);
    tm.select_tile(0);
    tm.brush(1, 1);
    assert_eq!(&tm.tile(1, 1)[..3], &[5, 5, NO_TILE]);
    tm.select_tile(-1);
    tm.brush(0, 0);
    assert_eq!(tm.tile(0, 0), vec![NO_TILE; 8]);
}

#[test]
fn tilemap_erase_clears_one_layer_at_a_time() {
    let mut tm = Tilemap::new(4, 3, 3, 8, 8, 10);
    tm.define_tile(5, 0xff, None);
    tm.define_tile(6, 0xff, None);
    for l in 0..3 {
        tm.set_tile(2, 1, l, 6);
    }
    let mut before = tm.tile(2, 1);
    for _ in 0..3 {
        let e = tm.erase(2, 1, Some(Erase::Any));
        let after = tm.tile(2, 1);
        let changed: Vec<usize> = (0..8).filter(|&l| after[l] != before[l]).collect();
        assert_eq!(e, Some(Erase::Any));
        assert_eq!(changed.len(), 1);
        assert_eq!(after[changed[0]], NO_TILE);
        before = after;
    }
    assert_eq!(&tm.tile(2, 1)[..3], &[NO_TILE, NO_TILE, NO_TILE]);
    assert_eq!(tm.erase(2, 1, Some(Erase::Any)), None);
    assert_eq!(tm.tile(2, 1), before);
    let mut stack = vec![NO_TILE, 6, 6, NO_TILE, NO_TILE, NO_TILE, NO_TILE, NO_TILE];
    assert_eq!(tm.erase_predict(&mut stack, Some(Erase::Any)), Some(Erase::Any));
    assert_eq!(stack, vec![NO_TILE, 6, NO_TILE, NO_TILE, NO_TILE, NO_TILE, NO_TILE, NO_TILE]);
}
