//! The laws the pipeline obeys, stated over the same spec functions the
//! stage contracts use and proved from them. The per-axis easing laws
//! (exact convergence when the step divides the distance, bounded
//! oscillation when it does not) live beside the easing code itself.

use vstd::prelude::*;
use vstd::math::abs;
use crate::entity::Entity;
use crate::entity::Role;
use crate::entity::TileCoordinate;
use crate::stages::autonomous_entity_resolved;
use crate::stages::autonomous_moved;
use crate::stages::autonomous_resolved;
use crate::stages::autonomous_tiles_in_range;
use crate::stages::count_drawable;
use crate::stages::drawable_of;
use crate::stages::has_drawable;
use crate::stages::player_tiles_in_range;
use crate::stages::render_all;
use crate::stages::resolve_player_all;
use crate::stages::resolve_player_entity;
use crate::stages::ease_entity;
use crate::easing::ease_axis_spec;
use crate::easing::ease_iter;
use crate::easing::lemma_ease_iter_add;
use crate::easing::lemma_ease_iter_in_range;

verus! {

/// The Chebyshev distance between two tile coordinates: the larger of
/// the two per-axis distances.
pub open spec fn chebyshev(a: TileCoordinate, b: TileCoordinate) -> int {
    vstd::math::max(abs(b.x - a.x) as int, abs(b.y - a.y) as int)
}

/// Law: one player resolver pass leaves every player entity holding a
/// tile coordinate with a clear movement intent, whether or not a
/// direction was pending.
pub proof fn lemma_intent_consumption(es: Seq<Entity>, i: int)
    requires
        0 <= i < es.len(),
        es[i].role == Some(Role::PlayerRole),
        es[i].tile is Some,
    ensures
        resolve_player_all(es)[i].intent is None,
{
    assert(resolve_player_all(es)[i] == resolve_player_entity(es[i]));
}

/// Law: across the player half of a resolver pass, every entity holding
/// a tile coordinate moves a Chebyshev distance of exactly zero or one,
/// along a single axis, never diagonally.
pub proof fn lemma_unit_step_player(es: Seq<Entity>, i: int)
    requires
        0 <= i < es.len(),
        es[i].tile is Some,
        player_tiles_in_range(es),
    ensures
        resolve_player_all(es)[i].tile is Some,
        0 <= chebyshev(es[i].tile->0, resolve_player_all(es)[i].tile->0) <= 1,
        resolve_player_all(es)[i].tile->0.x == es[i].tile->0.x || resolve_player_all(
            es,
        )[i].tile->0.y == es[i].tile->0.y,
{
    assert(resolve_player_all(es)[i] == resolve_player_entity(es[i]));
}

/// Law: across the autonomous half of a resolver pass, every entity
/// holding a tile coordinate moves a Chebyshev distance of exactly zero
/// or one, along a single axis, never diagonally.
pub proof fn lemma_unit_step_autonomous(pre: Seq<Entity>, post: Seq<Entity>, i: int)
    requires
        autonomous_resolved(pre, post),
        autonomous_tiles_in_range(pre),
        0 <= i < pre.len(),
        pre[i].tile is Some,
    ensures
        post[i].tile is Some,
        0 <= chebyshev(pre[i].tile->0, post[i].tile->0) <= 1,
        post[i].tile->0.x == pre[i].tile->0.x || post[i].tile->0.y == pre[i].tile->0.y,
{
    assert(autonomous_entity_resolved(pre[i], post[i]));
    if pre[i].role == Some(Role::AutonomousRole) {
        let d = choose|d| post[i] == #[trigger] autonomous_moved(pre[i], d);
        assert(post[i] == autonomous_moved(pre[i], d));
    }
}

/// Law: the autonomous half of a resolver pass changes every autonomous
/// entity's tile coordinate — such an entity never stays put.
pub proof fn lemma_autonomous_liveness(pre: Seq<Entity>, post: Seq<Entity>, i: int)
    requires
        autonomous_resolved(pre, post),
        autonomous_tiles_in_range(pre),
        0 <= i < pre.len(),
        pre[i].role == Some(Role::AutonomousRole),
        pre[i].tile is Some,
    ensures
        post[i].tile is Some,
        post[i].tile != pre[i].tile,
        chebyshev(pre[i].tile->0, post[i].tile->0) == 1,
{
    assert(autonomous_entity_resolved(pre[i], post[i]));
    let d = choose|d| post[i] == #[trigger] autonomous_moved(pre[i], d);
    assert(post[i] == autonomous_moved(pre[i], d));
}

/// An entity after `n` easer passes with a fixed cell size and step.
pub open spec fn ease_entity_iter(e: Entity, cell: int, step: int, n: nat) -> Entity
    decreases n,
{
    if n == 0 {
        e
    } else {
        ease_entity_iter(ease_entity(e, cell, step), cell, step, (n - 1) as nat)
    }
}

/// The last pass of `n` can be peeled off the end.
proof fn lemma_ease_entity_iter_tail(e: Entity, cell: int, step: int, n: nat)
    requires
        n >= 1,
    ensures
        ease_entity_iter(e, cell, step, n) == ease_entity(
            ease_entity_iter(e, cell, step, (n - 1) as nat),
            cell,
            step,
        ),
    decreases n,
{
    reveal_with_fuel(ease_entity_iter, 2);
    if n > 1 {
        lemma_ease_entity_iter_tail(ease_entity(e, cell, step), cell, step, (n - 1) as nat);
    }
}

/// Law: over repeated easer passes, an entity's tile coordinate, color,
/// role and intent stay put, and each axis of its pixel coordinate
/// follows the per-axis easing iteration exactly — so the per-axis
/// convergence and oscillation laws carry over to the stored pixel value.
pub proof fn lemma_ease_entity_iter_axes(e: Entity, cell: int, step: int, n: nat)
    requires
        step >= 1,
        e.tile is Some,
        e.pixel is Some,
        i64::MIN <= vstd::math::min(e.pixel->0.x as int, e.tile->0.x * cell) - step,
        vstd::math::max(e.pixel->0.x as int, e.tile->0.x * cell) + step <= i64::MAX,
        i64::MIN <= vstd::math::min(e.pixel->0.y as int, e.tile->0.y * cell) - step,
        vstd::math::max(e.pixel->0.y as int, e.tile->0.y * cell) + step <= i64::MAX,
    ensures
        ease_entity_iter(e, cell, step, n).tile == e.tile,
        ease_entity_iter(e, cell, step, n).color == e.color,
        ease_entity_iter(e, cell, step, n).role == e.role,
        ease_entity_iter(e, cell, step, n).intent == e.intent,
        ease_entity_iter(e, cell, step, n).pixel is Some,
        ease_entity_iter(e, cell, step, n).pixel->0.x as int == ease_iter(
            e.pixel->0.x as int,
            e.tile->0.x * cell,
            step,
            n,
        ),
        ease_entity_iter(e, cell, step, n).pixel->0.y as int == ease_iter(
            e.pixel->0.y as int,
            e.tile->0.y * cell,
            step,
            n,
        ),
    decreases n,
{
    if n > 0 {
        reveal_with_fuel(ease_iter, 2);
        let tx = e.tile->0.x * cell;
        let ty = e.tile->0.y * cell;
        let px = e.pixel->0.x as int;
        let py = e.pixel->0.y as int;
        lemma_ease_entity_iter_axes(e, cell, step, (n - 1) as nat);
        lemma_ease_entity_iter_tail(e, cell, step, n);
        let prev = ease_entity_iter(e, cell, step, (n - 1) as nat);
        let qx = prev.pixel->0.x as int;
        let qy = prev.pixel->0.y as int;
        lemma_ease_iter_add(px, tx, step, (n - 1) as nat, 1);
        lemma_ease_iter_add(py, ty, step, (n - 1) as nat, 1);
        assert(ease_iter(qx, tx, step, 1) == ease_axis_spec(qx, tx, step));
        assert(ease_iter(qy, ty, step, 1) == ease_axis_spec(qy, ty, step));
        assert(ease_iter(px, tx, step, n) == ease_axis_spec(qx, tx, step));
        assert(ease_iter(py, ty, step, n) == ease_axis_spec(qy, ty, step));
        lemma_ease_iter_in_range(px, tx, step, n);
        lemma_ease_iter_in_range(py, ty, step, n);
        assert(ease_entity_iter(e, cell, step, n) == ease_entity(prev, cell, step));
        assert(ease_entity(prev, cell, step).pixel->0.x as int == ease_axis_spec(qx, tx, step));
        assert(ease_entity(prev, cell, step).pixel->0.y as int == ease_axis_spec(qy, ty, step));
    }
}

/// Law: the collector emits exactly one square per entity holding both a
/// pixel coordinate and a color — with that entity's position and color —
/// and no square for any other entity.
pub proof fn lemma_render_completeness(es: Seq<Entity>, cell: i64)
    ensures
        render_all(es, cell).len() == count_drawable(es),
        forall|i: int|
            0 <= i < es.len() && #[trigger] has_drawable(es[i]) ==> render_all(es, cell).contains(
                drawable_of(es[i], cell),
            ),
        forall|j: int|
            0 <= j < render_all(es, cell).len() ==> exists|i: int|
                0 <= i < es.len() && #[trigger] has_drawable(es[i]) && #[trigger] render_all(
                    es,
                    cell,
                )[j] == drawable_of(es[i], cell),
    decreases es.len(),
{
    if es.len() == 0 {
    } else {
        let rest = es.drop_last();
        let out = render_all(es, cell);
        let out_rest = render_all(rest, cell);
        lemma_render_completeness(rest, cell);
        assert forall|i: int|
            0 <= i < es.len() && #[trigger] has_drawable(es[i]) implies out.contains(
            drawable_of(es[i], cell),
        ) by {
            if i < es.len() - 1 {
                assert(rest[i] == es[i]);
                assert(out_rest.contains(drawable_of(es[i], cell)));
                let k = choose|k: int|
                    0 <= k < out_rest.len() && out_rest[k] == drawable_of(es[i], cell);
                assert(out[k] == drawable_of(es[i], cell));
            } else {
                assert(es.last() == es[i]);
                assert(out[out.len() - 1] == drawable_of(es[i], cell));
            }
        }
        assert forall|j: int| 0 <= j < out.len() implies exists|i: int|
            0 <= i < es.len() && #[trigger] has_drawable(es[i]) && #[trigger] render_all(
                es,
                cell,
            )[j] == drawable_of(es[i], cell) by {
            if j < out_rest.len() {
                let i = choose|i: int|
                    0 <= i < rest.len() && #[trigger] has_drawable(rest[i]) && out_rest[j]
                        == drawable_of(rest[i], cell);
                assert(es[i] == rest[i]);
                assert(out[j] == out_rest[j]);
                assert(has_drawable(es[i]) && out[j] == drawable_of(es[i], cell));
            } else {
                let i = es.len() - 1;
                assert(es.last() == es[i]);
                assert(has_drawable(es[i]) && out[j] == drawable_of(es[i], cell));
            }
        }
    }
}

} // verus!
