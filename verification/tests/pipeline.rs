use gridglide::entity::Color;
use gridglide::entity::Direction;
use gridglide::entity::Entity;
use gridglide::entity::InputSnapshot;
use gridglide::entity::PixelCoordinate;
use gridglide::entity::Role;
use gridglide::entity::TileCoordinate;
use gridglide::stages::draw_entities;
use gridglide::stages::interact;
use gridglide::stages::translate;
use gridglide::stages::update_enemy_tile_position;
use gridglide::stages::update_player_tile_position;
use gridglide::stages::update_position;
use gridglide::world::AttributeMask;
use gridglide::world::World;

fn bare_entity() -> Entity {
    Entity { tile: None, pixel: None, intent: None, color: None, role: None }
}

fn player_at(x: i64, y: i64, cell: i64) -> Entity {
    Entity {
        tile: Some(TileCoordinate { x, y }),
        pixel: Some(PixelCoordinate { x: x * cell, y: y * cell }),
        intent: None,
        color: Some(Color { r: 0, g: 49, b: 83, a: 255 }),
        role: Some(Role::PlayerRole),
    }
}

fn enemy_at(x: i64, y: i64, cell: i64) -> Entity {
    Entity {
        tile: Some(TileCoordinate { x, y }),
        pixel: Some(PixelCoordinate { x: x * cell, y: y * cell }),
        intent: None,
        color: Some(Color { r: 255, g: 0, b: 0, a: 255 }),
        role: Some(Role::AutonomousRole),
    }
}

fn no_key() -> InputSnapshot {
    InputSnapshot {
        up_released: false,
        down_released: false,
        left_released: false,
        right_released: false,
    }
}

#[test]
fn translate_single_keys() {
    let mut s = no_key();
    s.up_released = true;
    assert_eq!(translate(&s), Some(Direction::Up));
    let mut s = no_key();
    s.down_released = true;
    assert_eq!(translate(&s), Some(Direction::Down));
    let mut s = no_key();
    s.left_released = true;
    assert_eq!(translate(&s), Some(Direction::Left));
    let mut s = no_key();
    s.right_released = true;
    assert_eq!(translate(&s), Some(Direction::Right));
    assert_eq!(translate(&no_key()), None);
}

#[test]
fn translate_later_check_wins() {
    let s = InputSnapshot {
        up_released: true,
        down_released: true,
        left_released: false,
        right_released: false,
    };
    assert_eq!(translate(&s), Some(Direction::Down));
    let s = InputSnapshot {
        up_released: true,
        down_released: true,
        left_released: true,
        right_released: true,
    };
    assert_eq!(translate(&s), Some(Direction::Right));
}

#[test]
fn interact_sets_player_intent_only() {
    let mut w = World::new(20, 16, 50, 10);
    let p = w.create(player_at(3, 3, 50));
    let e = w.create(enemy_at(5, 5, 50));
    let mut s = no_key();
    s.left_released = true;
    interact(&mut w, &s);
    assert_eq!(w.entity(p).intent, Some(Direction::Left));
    assert_eq!(w.entity(e).intent, None);
}

#[test]
fn interact_without_key_keeps_intent() {
    let mut w = World::new(20, 16, 50, 10);
    let mut pl = player_at(3, 3, 50);
    pl.intent = Some(Direction::Up);
    let p = w.create(pl);
    interact(&mut w, &no_key());
    assert_eq!(w.entity(p).intent, Some(Direction::Up));
}

#[test]
fn interact_without_player_is_no_op() {
    let mut w = World::new(20, 16, 50, 10);
    let e = w.create(enemy_at(5, 5, 50));
    let before = w.entity(e);
    let mut s = no_key();
    s.up_released = true;
    interact(&mut w, &s);
    assert_eq!(w.entity(e), before);
}

#[test]
fn resolver_moves_each_direction_one_cell() {
    let cases = [
        (Direction::Up, 4, 3),
        (Direction::Down, 4, 5),
        (Direction::Left, 3, 4),
        (Direction::Right, 5, 4),
    ];
    for (d, ex, ey) in cases {
        let mut w = World::new(20, 16, 50, 10);
        let mut pl = player_at(4, 4, 50);
        pl.intent = Some(d);
        let p = w.create(pl);
        update_player_tile_position(&mut w);
        assert_eq!(w.entity(p).tile, Some(TileCoordinate { x: ex, y: ey }));
        assert_eq!(w.entity(p).intent, None);
    }
}

#[test]
fn resolver_consumes_intent_even_when_idle() {
    let mut w = World::new(20, 16, 50, 10);
    let p = w.create(player_at(4, 4, 50));
    update_player_tile_position(&mut w);
    assert_eq!(w.entity(p).intent, None);
    assert_eq!(w.entity(p).tile, Some(TileCoordinate { x: 4, y: 4 }));
}

#[test]
fn resolver_ignores_tileless_player() {
    let mut w = World::new(20, 16, 50, 10);
    let mut pl = player_at(4, 4, 50);
    pl.tile = None;
    pl.intent = Some(Direction::Up);
    let p = w.create(pl);
    update_player_tile_position(&mut w);
    assert_eq!(w.entity(p).intent, Some(Direction::Up));
}

#[test]
fn resolver_never_clamps_to_grid() {
    let mut w = World::new(20, 16, 50, 10);
    let mut pl = player_at(0, 0, 50);
    pl.intent = Some(Direction::Left);
    let p = w.create(pl);
    update_player_tile_position(&mut w);
    assert_eq!(w.entity(p).tile, Some(TileCoordinate { x: -1, y: 0 }));
}

#[test]
fn autonomous_moves_exactly_one_cell_every_pass() {
    let mut w = World::new(20, 16, 50, 10);
    let e = w.create(enemy_at(0, 0, 50));
    let mut prev = w.entity(e).tile.unwrap();
    for _ in 0..200 {
        update_enemy_tile_position(&mut w);
        let cur = w.entity(e).tile.unwrap();
        let dx = (cur.x - prev.x).abs();
        let dy = (cur.y - prev.y).abs();
        assert_eq!(dx + dy, 1, "one axis moved exactly one cell");
        prev = cur;
    }
}

#[test]
fn autonomous_draw_is_roughly_uniform() {
    let mut w = World::new(20, 16, 50, 10);
    let e = w.create(enemy_at(0, 0, 50));
    let mut counts = [0u32; 4];
    let mut prev = w.entity(e).tile.unwrap();
    let n: u32 = 10_000;
    for _ in 0..n {
        update_enemy_tile_position(&mut w);
        let cur = w.entity(e).tile.unwrap();
        let which: usize = if cur.y == prev.y - 1 {
            0
        } else if cur.y == prev.y + 1 {
            1
        } else if cur.x == prev.x - 1 {
            2
        } else {
            assert_eq!(cur.x, prev.x + 1);
            3
        };
        counts[which] += 1;
        prev = cur;
    }
    // Expected 2500 per direction; bounds are about seven standard
    // deviations wide, so a fair draw virtually never trips them.
    for c in counts {
        assert!(c > 2200 && c < 2800, "direction count {} outside uniform band", c);
    }
}

#[test]
fn autonomous_ignores_player_and_tileless() {
    let mut w = World::new(20, 16, 50, 10);
    let p = w.create(player_at(4, 4, 50));
    let mut loose = bare_entity();
    loose.role = Some(Role::AutonomousRole);
    let l = w.create(loose);
    let before_p = w.entity(p);
    let before_l = w.entity(l);
    update_enemy_tile_position(&mut w);
    assert_eq!(w.entity(p), before_p);
    assert_eq!(w.entity(l), before_l);
}

#[test]
fn easer_steps_toward_target_each_axis() {
    let mut w = World::new(20, 16, 50, 10);
    let mut pl = player_at(2, 2, 50);
    pl.pixel = Some(PixelCoordinate { x: 0, y: 200 });
    let p = w.create(pl);
    update_position(&mut w);
    // target is (100, 100): x climbs, y falls.
    assert_eq!(w.entity(p).pixel, Some(PixelCoordinate { x: 10, y: 190 }));
}

#[test]
fn easer_exact_convergence_then_fixed() {
    let mut w = World::new(20, 16, 50, 10);
    let mut pl = player_at(14, 14, 50);
    pl.pixel = Some(PixelCoordinate { x: 700, y: 750 });
    let p = w.create(pl);
    for k in 1..=5 {
        update_position(&mut w);
        let px = w.entity(p).pixel.unwrap();
        assert_eq!(px.y, 750 - 10 * k);
        assert_eq!(px.x, 700);
    }
    for _ in 0..20 {
        update_position(&mut w);
        assert_eq!(w.entity(p).pixel, Some(PixelCoordinate { x: 700, y: 700 }));
    }
}

#[test]
fn easer_oscillates_within_one_step() {
    let mut w = World::new(20, 16, 50, 10);
    let mut pl = player_at(14, 14, 50);
    // distance 55 to target 700: five whole steps and a remainder of 5.
    pl.pixel = Some(PixelCoordinate { x: 700, y: 755 });
    let p = w.create(pl);
    for _ in 0..5 {
        update_position(&mut w);
    }
    for _ in 0..50 {
        update_position(&mut w);
        let py = w.entity(p).pixel.unwrap().y;
        assert!((py - 700).abs() < 10, "pixel y {} left the one-step band", py);
        assert_ne!(py, 700);
    }
}

#[test]
fn easer_skips_partial_entities() {
    let mut w = World::new(20, 16, 50, 10);
    let mut tile_only = bare_entity();
    tile_only.tile = Some(TileCoordinate { x: 1, y: 1 });
    let a = w.create(tile_only);
    let mut pixel_only = bare_entity();
    pixel_only.pixel = Some(PixelCoordinate { x: 30, y: 30 });
    let b = w.create(pixel_only);
    update_position(&mut w);
    assert_eq!(w.entity(a).pixel, None);
    assert_eq!(w.entity(b).pixel, Some(PixelCoordinate { x: 30, y: 30 }));
}

#[test]
fn render_emits_one_square_per_drawable_entity() {
    let mut w = World::new(20, 16, 50, 10);
    w.create(player_at(2, 3, 50));
    let mut pixel_only = bare_entity();
    pixel_only.pixel = Some(PixelCoordinate { x: 30, y: 30 });
    w.create(pixel_only);
    let mut color_only = bare_entity();
    color_only.color = Some(Color { r: 1, g: 2, b: 3, a: 4 });
    w.create(color_only);
    w.create(enemy_at(7, 1, 50));
    let out = draw_entities(&w);
    assert_eq!(out.len(), 2);
    assert_eq!(out[0].x, 100);
    assert_eq!(out[0].y, 150);
    assert_eq!(out[0].width, 50);
    assert_eq!(out[0].height, 50);
    assert_eq!(out[0].color, Color { r: 0, g: 49, b: 83, a: 255 });
    assert_eq!(out[1].x, 350);
    assert_eq!(out[1].y, 50);
    assert_eq!(out[1].color, Color { r: 255, g: 0, b: 0, a: 255 });
}

#[test]
fn render_of_empty_world_is_empty() {
    let w = World::new(20, 16, 50, 10);
    assert_eq!(draw_entities(&w).len(), 0);
}

#[test]
fn query_ids_filters_by_attribute_kinds() {
    let mut w = World::new(20, 16, 50, 10);
    let p = w.create(player_at(2, 3, 50));
    let mut pixel_only = bare_entity();
    pixel_only.pixel = Some(PixelCoordinate { x: 30, y: 30 });
    let q = w.create(pixel_only);
    let e = w.create(enemy_at(7, 1, 50));
    let none = AttributeMask { tile: false, pixel: false, intent: false, color: false, role: false };
    assert_eq!(w.query_ids(none), vec![p, q, e]);
    let tiled = AttributeMask { tile: true, pixel: false, intent: false, color: false, role: false };
    assert_eq!(w.query_ids(tiled), vec![p, e]);
    let drawable = AttributeMask {
        tile: false,
        pixel: true,
        intent: false,
        color: true,
        role: false,
    };
    assert_eq!(w.query_ids(drawable), vec![p, e]);
}
