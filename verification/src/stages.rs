//! The update pipeline: input translation, intent resolution, position
//! easing, render collection, and the per-tick driver that sequences the
//! middle two.
//!
//! Each stage owns the attribute kind it mutates: the translator writes
//! movement intents, the resolver moves tile coordinates and consumes
//! intents, the easer moves pixel coordinates, and the collector mutates
//! nothing.

use vstd::prelude::*;
use crate::easing::ease_axis;
use crate::easing::ease_axis_spec;
use crate::entity::Color;
use crate::entity::Direction;
use crate::entity::Drawable;
use crate::entity::Entity;
use crate::entity::InputSnapshot;
use crate::entity::PixelCoordinate;
use crate::entity::Role;
use crate::entity::apply_step;
use crate::entity::step_tile;
use crate::world::World;
use rand::RngExt;

verus! {

/// Both worlds carry the same construction parameters.
pub open spec fn same_params(a: World, b: World) -> bool {
    &&& a.grid_width == b.grid_width
    &&& a.grid_height == b.grid_height
    &&& a.cell_size == b.cell_size
    &&& a.step == b.step
}

// ---------------------------------------------------------------------
// Input Translator
// ---------------------------------------------------------------------

/// The direction a snapshot selects: each of the four keys is tested in
/// the fixed order up, down, left, right, and a later released key
/// overwrites an earlier one; no released key selects nothing.
pub open spec fn translate_spec(s: InputSnapshot) -> Option<Direction> {
    if s.right_released {
        Some(Direction::Right)
    } else if s.left_released {
        Some(Direction::Left)
    } else if s.down_released {
        Some(Direction::Down)
    } else if s.up_released {
        Some(Direction::Up)
    } else {
        None
    }
}

/// Maps a raw input snapshot to the movement direction it requests,
/// if any.
pub fn translate(s: &InputSnapshot) -> (r: Option<Direction>)
    ensures
        r == translate_spec(*s),
{
    let mut r: Option<Direction> = None;
    if s.up_released {
        r = Some(Direction::Up);
    }
    if s.down_released {
        r = Some(Direction::Down);
    }
    if s.left_released {
        r = Some(Direction::Left);
    }
    if s.right_released {
        r = Some(Direction::Right);
    }
    r
}

/// What one entity looks like after an input poll: a player entity gets
/// the snapshot's direction as its pending intent, or keeps its intent
/// when the snapshot selects nothing; every other entity is untouched.
pub open spec fn interact_entity(e: Entity, s: InputSnapshot) -> Entity {
    if e.role == Some(Role::PlayerRole) && translate_spec(s) is Some {
        Entity { intent: translate_spec(s), ..e }
    } else {
        e
    }
}

/// One input poll over the whole store.
pub open spec fn interact_all(es: Seq<Entity>, s: InputSnapshot) -> Seq<Entity> {
    es.map_values(|e: Entity| interact_entity(e, s))
}

/// Writes the direction the snapshot selects, if any, into the pending
/// movement intent of every player entity. Has no effect when no key was
/// released, and none when no player entity exists.
pub fn interact(world: &mut World, input: &InputSnapshot)
    ensures
        final(world).entities@ == interact_all(old(world).entities@, *input),
        same_params(*old(world), *final(world)),
{
    let dir = translate(input);
    let n = world.entities.len();
    let mut i: usize = 0;
    while i < n
        invariant
            n == world.entities@.len(),
            world.entities@.len() == old(world).entities@.len(),
            i <= n,
            same_params(*old(world), *world),
            dir == translate_spec(*input),
            forall|j: int|
                0 <= j < i ==> world.entities@[j] == interact_entity(
                    #[trigger] old(world).entities@[j],
                    *input,
                ),
            forall|j: int| i <= j < n ==> world.entities@[j] == old(world).entities@[j],
        decreases n - i,
    {
        let e = world.entities[i];
        if dir.is_some() && matches!(e.role, Some(Role::PlayerRole)) {
            world.entities[i] = Entity { intent: dir, ..e };
        }
        i = i + 1;
    }
    proof {
        assert(world.entities@ =~= interact_all(old(world).entities@, *input));
    }
}

// ---------------------------------------------------------------------
// Intent Resolver: player entities
// ---------------------------------------------------------------------

/// What one entity looks like after the player half of a resolver pass:
/// a player entity with a tile coordinate and a pending direction moves
/// one cell that way and its intent is consumed; every other entity is
/// untouched (in particular, an idle player's intent stays clear).
pub open spec fn resolve_player_entity(e: Entity) -> Entity {
    if e.role == Some(Role::PlayerRole) && e.tile is Some && e.intent is Some {
        Entity { tile: Some(step_tile(e.tile->0, e.intent->0)), intent: None, ..e }
    } else {
        e
    }
}

/// The player half of a resolver pass over the whole store.
pub open spec fn resolve_player_all(es: Seq<Entity>) -> Seq<Entity> {
    es.map_values(|e: Entity| resolve_player_entity(e))
}

/// Every player entity's tile coordinate is far enough from the ends of
/// the machine range that one more unit step cannot wrap.
pub open spec fn player_tiles_in_range(es: Seq<Entity>) -> bool {
    forall|i: int|
        0 <= i < es.len() && (#[trigger] es[i]).role == Some(Role::PlayerRole) && es[i].tile
            is Some ==> {
            &&& i64::MIN < es[i].tile->0.x < i64::MAX
            &&& i64::MIN < es[i].tile->0.y < i64::MAX
        }
}

/// Moves every player entity holding both a tile coordinate and a pending
/// intent one cell in the pending direction, and clears the intent. The
/// grid extent is not consulted: coordinates may leave the grid.
pub fn update_player_tile_position(world: &mut World)
    requires
        player_tiles_in_range(old(world).entities@),
    ensures
        final(world).entities@ == resolve_player_all(old(world).entities@),
        same_params(*old(world), *final(world)),
{
    let n = world.entities.len();
    let mut i: usize = 0;
    while i < n
        invariant
            n == world.entities@.len(),
            world.entities@.len() == old(world).entities@.len(),
            i <= n,
            same_params(*old(world), *world),
            player_tiles_in_range(old(world).entities@),
            forall|j: int|
                0 <= j < i ==> world.entities@[j] == resolve_player_entity(
                    #[trigger] old(world).entities@[j],
                ),
            forall|j: int| i <= j < n ==> world.entities@[j] == old(world).entities@[j],
        decreases n - i,
    {
        let e = world.entities[i];
        if matches!(e.role, Some(Role::PlayerRole)) && e.tile.is_some() && e.intent.is_some() {
            let t = e.tile.unwrap();
            let d = e.intent.unwrap();
            let moved = apply_step(t, d);
            world.entities[i] = Entity { tile: Some(moved), intent: None, ..e };
        }
        i = i + 1;
    }
    proof {
        assert(world.entities@ =~= resolve_player_all(old(world).entities@));
    }
}

// ---------------------------------------------------------------------
// Intent Resolver: autonomous entities
// ---------------------------------------------------------------------

/// The direction a uniform draw over `0..4` selects.
pub open spec fn direction_of_index(i: int) -> Direction {
    if i == 0 {
        Direction::Up
    } else if i == 1 {
        Direction::Down
    } else if i == 2 {
        Direction::Left
    } else {
        Direction::Right
    }
}

/// Relies on rand: `rand::rng()` hands out the thread-local generator,
/// and `RngExt::random_range` over the non-empty range `0..4` returns a
/// value in that range (it panics only on an empty range).
#[verifier::external_body]
fn random_index_of_four() -> (r: u8)
    ensures
        r < 4,
{
    rand::rng().random_range(0..4u8)
}

/// Picks the direction a drawn index stands for.
pub fn direction_from_index(i: u8) -> (d: Direction)
    requires
        i < 4,
    ensures
        d == direction_of_index(i as int),
{
    if i == 0 {
        Direction::Up
    } else if i == 1 {
        Direction::Down
    } else if i == 2 {
        Direction::Left
    } else {
        Direction::Right
    }
}

/// `pre` moved one cell in direction `d`, everything else as it was.
pub open spec fn autonomous_moved(pre: Entity, d: Direction) -> Entity {
    Entity { tile: Some(step_tile(pre.tile->0, d)), ..pre }
}

/// How one entity may come out of the autonomous half of a resolver
/// pass: an autonomous entity with a tile coordinate moved one cell in
/// some direction; every other entity is untouched. Which direction was
/// drawn is not determined: any of the four may come out, each tick anew.
pub open spec fn autonomous_entity_resolved(pre: Entity, post: Entity) -> bool {
    if pre.role == Some(Role::AutonomousRole) && pre.tile is Some {
        exists|d: Direction| post == #[trigger] autonomous_moved(pre, d)
    } else {
        post == pre
    }
}

/// How the whole store may come out of the autonomous half of a
/// resolver pass.
pub open spec fn autonomous_resolved(pre: Seq<Entity>, post: Seq<Entity>) -> bool {
    &&& post.len() == pre.len()
    &&& forall|i: int|
        0 <= i < pre.len() ==> autonomous_entity_resolved(#[trigger] pre[i], post[i])
}

/// Every autonomous entity's tile coordinate is far enough from the ends
/// of the machine range that one more unit step cannot wrap.
pub open spec fn autonomous_tiles_in_range(es: Seq<Entity>) -> bool {
    forall|i: int|
        0 <= i < es.len() && (#[trigger] es[i]).role == Some(Role::AutonomousRole) && es[i].tile
            is Some ==> {
            &&& i64::MIN < es[i].tile->0.x < i64::MAX
            &&& i64::MIN < es[i].tile->0.y < i64::MAX
        }
}

/// Moves every autonomous entity holding a tile coordinate one cell in a
/// direction drawn uniform-at-random, independently per entity. Such
/// entities move every tick: their intent regenerates itself, so none is
/// stored or consumed.
pub fn update_enemy_tile_position(world: &mut World)
    requires
        autonomous_tiles_in_range(old(world).entities@),
    ensures
        autonomous_resolved(old(world).entities@, final(world).entities@),
        same_params(*old(world), *final(world)),
{
    let n = world.entities.len();
    let mut i: usize = 0;
    while i < n
        invariant
            n == world.entities@.len(),
            world.entities@.len() == old(world).entities@.len(),
            i <= n,
            same_params(*old(world), *world),
            autonomous_tiles_in_range(old(world).entities@),
            forall|j: int|
                0 <= j < i ==> autonomous_entity_resolved(
                    #[trigger] old(world).entities@[j],
                    world.entities@[j],
                ),
            forall|j: int| i <= j < n ==> world.entities@[j] == old(world).entities@[j],
        decreases n - i,
    {
        let e = world.entities[i];
        if matches!(e.role, Some(Role::AutonomousRole)) && e.tile.is_some() {
            let t = e.tile.unwrap();
            let idx = random_index_of_four();
            let d = direction_from_index(idx);
            let moved = apply_step(t, d);
            world.entities[i] = Entity { tile: Some(moved), ..e };
            proof {
                assert(world.entities@[i as int] == autonomous_moved(old(world).entities@[i as int], d));
            }
        }
        i = i + 1;
    }
}

// ---------------------------------------------------------------------
// Position Easer
// ---------------------------------------------------------------------

/// What one entity looks like after an easer pass: an entity holding
/// both coordinates has its pixel coordinate moved one `step` toward the
/// tile coordinate's pixel-space projection (tile times `cell`), on each
/// axis independently; every other entity is untouched.
pub open spec fn ease_entity(e: Entity, cell: int, step: int) -> Entity {
    if e.tile is Some && e.pixel is Some {
        Entity {
            pixel: Some(
                PixelCoordinate {
                    x: ease_axis_spec(e.pixel->0.x as int, e.tile->0.x * cell, step) as i64,
                    y: ease_axis_spec(e.pixel->0.y as int, e.tile->0.y * cell, step) as i64,
                },
            ),
            ..e
        }
    } else {
        e
    }
}

/// One easer pass over the whole store.
pub open spec fn ease_all(es: Seq<Entity>, cell: int, step: int) -> Seq<Entity> {
    es.map_values(|e: Entity| ease_entity(e, cell, step))
}

/// The machine-range room one easer pass needs on one entity: the tile's
/// projection and the pixel coordinate one step out each way stay
/// representable.
pub open spec fn ease_safe_entity(e: Entity, cell: int, step: int) -> bool {
    e.tile is Some && e.pixel is Some ==> {
        &&& i64::MIN <= e.tile->0.x * cell <= i64::MAX
        &&& i64::MIN <= e.tile->0.y * cell <= i64::MAX
        &&& i64::MIN <= e.pixel->0.x - step
        &&& e.pixel->0.x + step <= i64::MAX
        &&& i64::MIN <= e.pixel->0.y - step
        &&& e.pixel->0.y + step <= i64::MAX
    }
}

/// The machine-range room one easer pass needs, for every entity.
pub open spec fn ease_safe(es: Seq<Entity>, cell: int, step: int) -> bool {
    forall|i: int| 0 <= i < es.len() ==> ease_safe_entity(#[trigger] es[i], cell, step)
}

/// Moves every entity holding both coordinates one `step` toward its
/// tile's pixel-space projection, on each axis independently. The pixel
/// value glides: it is never snapped onto the target.
pub fn update_position(world: &mut World)
    requires
        old(world).step >= 0,
        ease_safe(old(world).entities@, old(world).cell_size as int, old(world).step as int),
    ensures
        final(world).entities@ == ease_all(
            old(world).entities@,
            old(world).cell_size as int,
            old(world).step as int,
        ),
        same_params(*old(world), *final(world)),
{
    let cell = world.cell_size;
    let step = world.step;
    let n = world.entities.len();
    let mut i: usize = 0;
    while i < n
        invariant
            n == world.entities@.len(),
            world.entities@.len() == old(world).entities@.len(),
            i <= n,
            cell == old(world).cell_size,
            step == old(world).step,
            step >= 0,
            same_params(*old(world), *world),
            ease_safe(old(world).entities@, cell as int, step as int),
            forall|j: int|
                0 <= j < i ==> world.entities@[j] == ease_entity(
                    #[trigger] old(world).entities@[j],
                    cell as int,
                    step as int,
                ),
            forall|j: int| i <= j < n ==> world.entities@[j] == old(world).entities@[j],
        decreases n - i,
    {
        let e = world.entities[i];
        if e.tile.is_some() && e.pixel.is_some() {
            let t = e.tile.unwrap();
            let p = e.pixel.unwrap();
            proof {
                assert(ease_safe_entity(old(world).entities@[i as int], cell as int, step as int));
            }
            let target_x = t.x * cell;
            let target_y = t.y * cell;
            let px = ease_axis(p.x, target_x, step);
            let py = ease_axis(p.y, target_y, step);
            world.entities[i] = Entity { pixel: Some(PixelCoordinate { x: px, y: py }), ..e };
        }
        i = i + 1;
    }
    proof {
        assert(world.entities@ =~= ease_all(
            old(world).entities@,
            old(world).cell_size as int,
            old(world).step as int,
        ));
    }
}

// ---------------------------------------------------------------------
// Render Collector
// ---------------------------------------------------------------------

/// Whether the collector emits a square for this entity: it holds both a
/// pixel coordinate and a color.
pub open spec fn has_drawable(e: Entity) -> bool {
    e.pixel is Some && e.color is Some
}

/// The square the collector emits for a drawable entity: the entity's
/// pixel position, one cell on a side, the entity's fill color.
pub open spec fn drawable_of(e: Entity, cell: i64) -> Drawable {
    Drawable { x: e.pixel->0.x, y: e.pixel->0.y, width: cell, height: cell, color: e.color->0 }
}

/// Everything the collector emits: one square per drawable entity, in
/// store order, nothing for any other entity.
pub open spec fn render_all(es: Seq<Entity>, cell: i64) -> Seq<Drawable>
    decreases es.len(),
{
    if es.len() == 0 {
        Seq::empty()
    } else {
        render_all(es.drop_last(), cell) + if has_drawable(es.last()) {
            seq![drawable_of(es.last(), cell)]
        } else {
            Seq::empty()
        }
    }
}

/// How many entities the collector emits a square for.
pub open spec fn count_drawable(es: Seq<Entity>) -> int
    decreases es.len(),
{
    if es.len() == 0 {
        0
    } else {
        count_drawable(es.drop_last()) + if has_drawable(es.last()) {
            1int
        } else {
            0int
        }
    }
}

/// Collects the current state into an ordered list of colored squares:
/// exactly one per entity holding both a pixel coordinate and a color,
/// in store order. Mutates nothing.
pub fn draw_entities(world: &World) -> (out: Vec<Drawable>)
    ensures
        out@ == render_all(world.entities@, world.cell_size),
{
    let cell = world.cell_size;
    let n = world.entities.len();
    let mut out: Vec<Drawable> = Vec::new();
    let mut i: usize = 0;
    proof {
        assert(out@ =~= render_all(world.entities@.take(0), cell));
    }
    while i < n
        invariant
            n == world.entities@.len(),
            i <= n,
            cell == world.cell_size,
            out@ == render_all(world.entities@.take(i as int), cell),
        decreases n - i,
    {
        let e = world.entities[i];
        if e.pixel.is_some() && e.color.is_some() {
            let p = e.pixel.unwrap();
            let c = e.color.unwrap();
            out.push(Drawable { x: p.x, y: p.y, width: cell, height: cell, color: c });
        }
        proof {
            assert(world.entities@.take(i + 1).drop_last() =~= world.entities@.take(i as int));
            assert(world.entities@.take(i + 1).last() == world.entities@[i as int]);
        }
        i = i + 1;
    }
    proof {
        assert(world.entities@.take(n as int) =~= world.entities@);
    }
    out
}

// ---------------------------------------------------------------------
// Tick Driver
// ---------------------------------------------------------------------

/// The machine-range room one whole tick needs on one entity: every tile
/// coordinate has a unit of slack, its projection keeps that slack after
/// a one-cell move, and the pixel coordinate has one step of slack.
pub open spec fn tick_safe_entity(e: Entity, cell: int, step: int) -> bool {
    &&& e.tile is Some ==> {
        &&& i64::MIN < e.tile->0.x < i64::MAX
        &&& i64::MIN < e.tile->0.y < i64::MAX
        &&& i64::MIN <= (e.tile->0.x - 1) * cell
        &&& (e.tile->0.x + 1) * cell <= i64::MAX
        &&& i64::MIN <= (e.tile->0.y - 1) * cell
        &&& (e.tile->0.y + 1) * cell <= i64::MAX
    }
    &&& e.pixel is Some ==> {
        &&& i64::MIN <= e.pixel->0.x - step
        &&& e.pixel->0.x + step <= i64::MAX
        &&& i64::MIN <= e.pixel->0.y - step
        &&& e.pixel->0.y + step <= i64::MAX
    }
}

/// The machine-range room one whole tick needs: usable construction
/// parameters and per-entity slack.
pub open spec fn tick_safe(w: World) -> bool {
    &&& crate::world::wf_params(w)
    &&& forall|i: int|
        0 <= i < w.entities@.len() ==> tick_safe_entity(
            #[trigger] w.entities@[i],
            w.cell_size as int,
            w.step as int,
        )
}

/// How a world may come out of one tick: the player half of the resolver
/// ran, then the autonomous half, then one easer pass, in that order and
/// nothing else.
pub open spec fn tick_rel(pre: World, post: World) -> bool {
    exists|mid: Seq<Entity>|
        {
            &&& #[trigger] autonomous_resolved(resolve_player_all(pre.entities@), mid)
            &&& post.entities@ == ease_all(mid, pre.cell_size as int, pre.step as int)
        }
}

/// One fixed simulation step: resolves every pending movement intent
/// (player by stored intent, autonomous by a fresh random draw), then
/// eases every pixel coordinate one step toward its tile's projection.
pub fn tick(world: &mut World)
    requires
        tick_safe(*old(world)),
    ensures
        tick_rel(*old(world), *final(world)),
        same_params(*old(world), *final(world)),
{
    let ghost pre = *world;
    proof {
        assert forall|i: int|
            0 <= i < pre.entities@.len() && (#[trigger] pre.entities@[i]).role == Some(
                Role::PlayerRole,
            ) && pre.entities@[i].tile is Some implies {
            &&& i64::MIN < pre.entities@[i].tile->0.x < i64::MAX
            &&& i64::MIN < pre.entities@[i].tile->0.y < i64::MAX
        } by {
            assert(tick_safe_entity(pre.entities@[i], pre.cell_size as int, pre.step as int));
        }
    }
    update_player_tile_position(world);
    proof {
        assert forall|i: int|
            0 <= i < world.entities@.len() && (#[trigger] world.entities@[i]).role == Some(
                Role::AutonomousRole,
            ) && world.entities@[i].tile is Some implies {
            &&& i64::MIN < world.entities@[i].tile->0.x < i64::MAX
            &&& i64::MIN < world.entities@[i].tile->0.y < i64::MAX
        } by {
            assert(world.entities@[i] == resolve_player_entity(pre.entities@[i]));
            assert(tick_safe_entity(pre.entities@[i], pre.cell_size as int, pre.step as int));
        }
    }
    update_enemy_tile_position(world);
    let ghost mid = world.entities@;
    proof {
        let cell = pre.cell_size as int;
        let step = pre.step as int;
        assert forall|i: int| 0 <= i < mid.len() implies ease_safe_entity(
            #[trigger] mid[i],
            cell,
            step,
        ) by {
            let e0 = pre.entities@[i];
            let e1 = resolve_player_all(pre.entities@)[i];
            assert(e1 == resolve_player_entity(e0));
            assert(autonomous_entity_resolved(e1, mid[i]));
            assert(tick_safe_entity(e0, cell, step));
            if mid[i].tile is Some && mid[i].pixel is Some {
                let t0 = e0.tile->0;
                let t2 = mid[i].tile->0;
                assert(e0.tile is Some);
                assert(mid[i].pixel == e0.pixel);
                assert(t0.x - 1 <= t2.x <= t0.x + 1);
                assert(t0.y - 1 <= t2.y <= t0.y + 1);
                vstd::arithmetic::mul::lemma_mul_inequality(t0.x - 1, t2.x as int, cell);
                vstd::arithmetic::mul::lemma_mul_inequality(t2.x as int, t0.x + 1, cell);
                vstd::arithmetic::mul::lemma_mul_inequality(t0.y - 1, t2.y as int, cell);
                vstd::arithmetic::mul::lemma_mul_inequality(t2.y as int, t0.y + 1, cell);
            }
        }
    }
    update_position(world);
    proof {
        assert(autonomous_resolved(resolve_player_all(pre.entities@), mid));
        assert(world.entities@ == ease_all(mid, pre.cell_size as int, pre.step as int));
    }
}

} // verus!


