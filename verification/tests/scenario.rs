use gridglide::entity::Color;
use gridglide::entity::Direction;
use gridglide::entity::Entity;
use gridglide::entity::InputSnapshot;
use gridglide::entity::PixelCoordinate;
use gridglide::entity::Role;
use gridglide::entity::TileCoordinate;
use gridglide::stages::interact;
use gridglide::stages::tick;
use gridglide::stages::update_player_tile_position;
use gridglide::stages::update_position;
use gridglide::world::World;

#[test]
fn player_glides_to_the_cell_above() {
    // Grid of 20 by 16 cells, 50 pixels each; the player starts on tile
    // (10, 15), pixel (500, 750).
    let mut w = World::new(20, 16, 50, 10);
    let p = w.create(Entity {
        tile: Some(TileCoordinate { x: 10, y: 15 }),
        pixel: Some(PixelCoordinate { x: 500, y: 750 }),
        intent: None,
        color: Some(Color { r: 0, g: 49, b: 83, a: 255 }),
        role: Some(Role::PlayerRole),
    });

    // The key for "up" is released, then one resolver pass runs.
    let snap = InputSnapshot {
        up_released: true,
        down_released: false,
        left_released: false,
        right_released: false,
    };
    interact(&mut w, &snap);
    assert_eq!(w.entity(p).intent, Some(Direction::Up));
    update_player_tile_position(&mut w);
    assert_eq!(w.entity(p).tile, Some(TileCoordinate { x: 10, y: 14 }));
    assert_eq!(w.entity(p).intent, None);

    // Five easer passes at step 10 close the 50-pixel offset; the pixel
    // y lands on 700 and stays there.
    for _ in 0..5 {
        update_position(&mut w);
    }
    assert_eq!(w.entity(p).pixel, Some(PixelCoordinate { x: 500, y: 700 }));
    for _ in 0..10 {
        update_position(&mut w);
        assert_eq!(w.entity(p).pixel, Some(PixelCoordinate { x: 500, y: 700 }));
    }
}

#[test]
fn tick_resolves_then_eases() {
    let mut w = World::new(20, 16, 50, 10);
    let p = w.create(Entity {
        tile: Some(TileCoordinate { x: 4, y: 4 }),
        pixel: Some(PixelCoordinate { x: 200, y: 200 }),
        intent: Some(Direction::Right),
        color: Some(Color { r: 10, g: 20, b: 30, a: 255 }),
        role: Some(Role::PlayerRole),
    });
    let e = w.create(Entity {
        tile: Some(TileCoordinate { x: 8, y: 8 }),
        pixel: Some(PixelCoordinate { x: 400, y: 400 }),
        intent: None,
        color: Some(Color { r: 255, g: 0, b: 0, a: 255 }),
        role: Some(Role::AutonomousRole),
    });
    tick(&mut w);

    // The player moved one cell right and its intent was consumed; the
    // easer then moved its pixel one step toward the new target (250, 200).
    assert_eq!(w.entity(p).tile, Some(TileCoordinate { x: 5, y: 4 }));
    assert_eq!(w.entity(p).intent, None);
    assert_eq!(w.entity(p).pixel, Some(PixelCoordinate { x: 210, y: 200 }));

    // The autonomous entity moved exactly one cell on one axis, and its
    // pixel moved one step toward the new cell's projection.
    let et = w.entity(e).tile.unwrap();
    let dx = (et.x - 8).abs();
    let dy = (et.y - 8).abs();
    assert_eq!(dx + dy, 1);
    let ep = w.entity(e).pixel.unwrap();
    assert_eq!((ep.x - 400).abs() + (ep.y - 400).abs(), 10);
}

#[test]
fn ticks_without_input_leave_player_tile_alone() {
    let mut w = World::new(20, 16, 50, 10);
    let p = w.create(Entity {
        tile: Some(TileCoordinate { x: 2, y: 2 }),
        pixel: Some(PixelCoordinate { x: 100, y: 100 }),
        intent: None,
        color: None,
        role: Some(Role::PlayerRole),
    });
    for _ in 0..25 {
        tick(&mut w);
        assert_eq!(w.entity(p).tile, Some(TileCoordinate { x: 2, y: 2 }));
        assert_eq!(w.entity(p).pixel, Some(PixelCoordinate { x: 100, y: 100 }));
    }
}
