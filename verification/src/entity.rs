//! The data model: attribute records and the entities that carry them.
//!
//! An entity owns any subset of the attribute kinds; each attribute is
//! attached independently, with no inheritance. Coordinates are plain
//! integers: a tile coordinate addresses a grid cell, a pixel coordinate
//! is the continuous render-space position that eases toward the tile's
//! projection.

use vstd::prelude::*;

verus! {

/// One of the four axis-aligned movement directions.
#[derive(Clone, Copy, PartialEq, Eq, Structural, Debug)]
pub enum Direction {
    Up,
    Down,
    Left,
    Right,
}

/// A discrete grid cell address. The core never clamps it to the grid
/// extent: coordinates may go negative or exceed the grid, and bounding
/// them, if desired, is the host's concern.
#[derive(Clone, Copy, PartialEq, Eq, Structural, Debug)]
pub struct TileCoordinate {
    pub x: i64,
    pub y: i64,
}

/// A continuous render-space position, in pixels. It converges toward
/// `TileCoordinate` times the cell size over time and is never required
/// to equal it exactly.
#[derive(Clone, Copy, PartialEq, Eq, Structural, Debug)]
pub struct PixelCoordinate {
    pub x: i64,
    pub y: i64,
}

/// A visual fill color, one channel value per component. Immutable after
/// creation; the host maps channel values to its own color space.
#[derive(Clone, Copy, PartialEq, Eq, Structural, Debug)]
pub struct Color {
    pub r: u8,
    pub g: u8,
    pub b: u8,
    pub a: u8,
}

/// Which intent-generation policy applies to a movement-capable entity.
#[derive(Clone, Copy, PartialEq, Eq, Structural, Debug)]
pub enum Role {
    /// Moves on a qualifying input edge, one intent at a time.
    PlayerRole,
    /// Draws a fresh uniform-random direction every tick.
    AutonomousRole,
}

/// One entity: an opaque identity (its index in the store) plus any
/// subset of the attribute kinds. `intent` is the pending, unconsumed
/// movement request; `None` means no request is pending.
#[derive(Clone, Copy, PartialEq, Eq, Structural, Debug)]
pub struct Entity {
    pub tile: Option<TileCoordinate>,
    pub pixel: Option<PixelCoordinate>,
    pub intent: Option<Direction>,
    pub color: Option<Color>,
    pub role: Option<Role>,
}

/// The raw input snapshot the host supplies at each input poll: for each
/// of the four designated keys, whether it was released since the last
/// poll (an edge, not a held state).
#[derive(Clone, Copy, PartialEq, Eq, Structural, Debug)]
pub struct InputSnapshot {
    pub up_released: bool,
    pub down_released: bool,
    pub left_released: bool,
    pub right_released: bool,
}

/// One axis-aligned square the host should draw: position, side length,
/// fill color.
#[derive(Clone, Copy, PartialEq, Eq, Structural, Debug)]
pub struct Drawable {
    pub x: i64,
    pub y: i64,
    pub width: i64,
    pub height: i64,
    pub color: Color,
}

/// The pixel-space projection of a tile: the cell's origin, the tile
/// coordinate scaled by the cell size. Easing pulls each pixel
/// coordinate toward this point.
pub fn pixel_of_tile(t: TileCoordinate, cell: i64) -> (p: PixelCoordinate)
    requires
        i64::MIN <= t.x * cell <= i64::MAX,
        i64::MIN <= t.y * cell <= i64::MAX,
    ensures
        p.x == t.x * cell,
        p.y == t.y * cell,
{
    PixelCoordinate { x: t.x * cell, y: t.y * cell }
}

/// The tile one unit from `t` in direction `d`: up and down shift y by
/// minus and plus one, left and right shift x by minus and plus one.
pub open spec fn step_tile(t: TileCoordinate, d: Direction) -> TileCoordinate {
    match d {
        Direction::Up => TileCoordinate { x: t.x, y: (t.y - 1) as i64 },
        Direction::Down => TileCoordinate { x: t.x, y: (t.y + 1) as i64 },
        Direction::Left => TileCoordinate { x: (t.x - 1) as i64, y: t.y },
        Direction::Right => TileCoordinate { x: (t.x + 1) as i64, y: t.y },
    }
}

/// Executable counterpart of `step_tile`.
pub fn apply_step(t: TileCoordinate, d: Direction) -> (r: TileCoordinate)
    requires
        i64::MIN < t.x < i64::MAX,
        i64::MIN < t.y < i64::MAX,
    ensures
        r == step_tile(t, d),
{
    match d {
        Direction::Up => TileCoordinate { x: t.x, y: t.y - 1 },
        Direction::Down => TileCoordinate { x: t.x, y: t.y + 1 },
        Direction::Left => TileCoordinate { x: t.x - 1, y: t.y },
        Direction::Right => TileCoordinate { x: t.x + 1, y: t.y },
    }
}

} // verus!
