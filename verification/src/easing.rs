//! Fixed-step easing of a continuous value toward a discrete target.
//!
//! One pass moves the value one `step` toward the target on each axis
//! independently, or leaves it alone when it is already there. When the
//! step evenly divides the distance, repeated passes reach the target
//! exactly and stay on it; when it does not, the value ends up circling
//! the target within one step of it, indefinitely. Both behaviors are
//! stated and proved below.

use vstd::prelude::*;
use vstd::math::abs;

verus! {

/// One easing pass on a single axis: move one `step` toward `target`,
/// or stay put when already on it.
pub open spec fn ease_axis_spec(p: int, target: int, step: int) -> int {
    if p < target {
        p + step
    } else if p > target {
        p - step
    } else {
        p
    }
}

/// The value after `n` easing passes on a single axis.
pub open spec fn ease_iter(p: int, target: int, step: int, n: nat) -> int
    decreases n,
{
    if n == 0 {
        p
    } else {
        ease_iter(ease_axis_spec(p, target, step), target, step, (n - 1) as nat)
    }
}

/// Executable counterpart of `ease_axis_spec`.
pub fn ease_axis(p: i64, target: i64, step: i64) -> (r: i64)
    requires
        step >= 0,
        i64::MIN <= p - step,
        p + step <= i64::MAX,
    ensures
        r == ease_axis_spec(p as int, target as int, step as int),
{
    if p < target {
        p + step
    } else if p > target {
        p - step
    } else {
        p
    }
}

/// A value already on the target stays on it, pass after pass.
pub proof fn lemma_ease_iter_fixed(target: int, step: int, n: nat)
    ensures
        ease_iter(target, target, step, n) == target,
    decreases n,
{
    if n > 0 {
        lemma_ease_iter_fixed(target, step, (n - 1) as nat);
    }
}

/// Easing passes compose: `a + b` passes are `b` passes after `a` passes.
pub proof fn lemma_ease_iter_add(p: int, target: int, step: int, a: nat, b: nat)
    ensures
        ease_iter(p, target, step, a + b) == ease_iter(
            ease_iter(p, target, step, a),
            target,
            step,
            b,
        ),
    decreases a,
{
    if a > 0 {
        lemma_ease_iter_add(ease_axis_spec(p, target, step), target, step, (a - 1) as nat, b);
    }
}

/// After `k` of the `n` whole steps that separate the value from the
/// target, the distance left is the remaining `n - k` steps plus the
/// remainder `r` that no pass can close.
pub proof fn lemma_ease_iter_distance(p: int, target: int, step: int, n: nat, r: int, k: nat)
    requires
        step >= 1,
        abs(target - p) == n * step + r,
        0 <= r < step,
        k <= n,
    ensures
        abs(target - ease_iter(p, target, step, k)) == (n - k) * step + r,
    decreases k,
{
    if k > 0 {
        assert(n * step >= 1 * step) by (nonlinear_arith)
            requires n >= 1 && step >= 1;
        let p1 = ease_axis_spec(p, target, step);
        assert(abs(target - p1) == (n - 1) * step + r) by {
            assert((n - 1) * step == n * step - step) by (nonlinear_arith);
        }
        lemma_ease_iter_distance(p1, target, step, (n - 1) as nat, r, (k - 1) as nat);
        assert(ease_iter(p, target, step, k) == ease_iter(p1, target, step, (k - 1) as nat));
    }
}

/// Law: when the step size evenly divides the distance to the target
/// (`abs(target - p) == n * step`), each of the first `n` passes closes
/// exactly one step, the target is reached after exactly `n` passes, and
/// every later pass leaves the value fixed on the target.
pub proof fn lemma_ease_monotonic_convergence(p: int, target: int, step: int, n: nat, m: nat)
    requires
        step >= 1,
        abs(target - p) == n * step,
        m >= n,
    ensures
        forall|k: nat| k <= n ==> abs(target - #[trigger] ease_iter(p, target, step, k)) == (n
            - k) * step,
        ease_iter(p, target, step, n) == target,
        ease_iter(p, target, step, m) == target,
{
    assert forall|k: nat| k <= n implies abs(target - #[trigger] ease_iter(p, target, step, k))
        == (n - k) * step by {
        lemma_ease_iter_distance(p, target, step, n, 0, k);
    }
    lemma_ease_iter_distance(p, target, step, n, 0, n);
    assert((n - n) * step == 0) by (nonlinear_arith);
    lemma_ease_iter_add(p, target, step, n, (m - n) as nat);
    lemma_ease_iter_fixed(target, step, (m - n) as nat);
}

/// One pass from strictly within one step of the target lands strictly
/// within one step of it again, on the far side, and never on it.
proof fn lemma_ease_overshoot_step(p: int, target: int, step: int)
    requires
        step >= 1,
        0 < abs(target - p) < step,
    ensures
        0 < abs(target - ease_axis_spec(p, target, step)) < step,
        abs(target - ease_axis_spec(p, target, step)) == step - abs(target - p),
{
}

/// From strictly within one step of the target, every later pass stays
/// strictly within one step of it.
proof fn lemma_ease_oscillates(p: int, target: int, step: int, m: nat)
    requires
        step >= 1,
        0 < abs(target - p) < step,
    ensures
        0 < abs(target - ease_iter(p, target, step, m)) < step,
    decreases m,
{
    if m > 0 {
        lemma_ease_overshoot_step(p, target, step);
        lemma_ease_oscillates(ease_axis_spec(p, target, step), target, step, (m - 1) as nat);
    }
}

/// Where every easing iterate lives: still between the start and the
/// target, or already circling the target within one step of it.
pub open spec fn ease_envelope(p: int, target: int, step: int, x: int) -> bool {
    ||| vstd::math::min(p, target) <= x <= vstd::math::max(p, target)
    ||| abs(target - x) < step
}

/// One pass keeps a value inside the easing envelope.
proof fn lemma_ease_envelope_step(p: int, target: int, step: int, x: int)
    requires
        step >= 1,
        ease_envelope(p, target, step, x),
    ensures
        ease_envelope(p, target, step, ease_axis_spec(x, target, step)),
{
}

/// Easing never escapes: every iterate stays within one step of the
/// interval between the start and the target.
pub proof fn lemma_ease_iter_in_range(p: int, target: int, step: int, n: nat)
    requires
        step >= 1,
    ensures
        ease_envelope(p, target, step, ease_iter(p, target, step, n)),
        vstd::math::min(p, target) - step <= ease_iter(p, target, step, n) <= vstd::math::max(
            p,
            target,
        ) + step,
    decreases n,
{
    if n > 0 {
        reveal_with_fuel(ease_iter, 2);
        lemma_ease_iter_in_range(p, target, step, (n - 1) as nat);
        lemma_ease_iter_add(p, target, step, (n - 1) as nat, 1);
        lemma_ease_envelope_step(p, target, step, ease_iter(p, target, step, (n - 1) as nat));
    }
}

/// Law: when the step size does not evenly divide the distance to the
/// target (`abs(target - p) == n * step + r` with `0 < r < step`), then
/// from pass `n` onward the value stays strictly within one step of the
/// target, never equals it, and never diverges.
pub proof fn lemma_ease_bounded_oscillation(
    p: int,
    target: int,
    step: int,
    n: nat,
    r: int,
    m: nat,
)
    requires
        step >= 1,
        abs(target - p) == n * step + r,
        0 < r < step,
        m >= n,
    ensures
        0 < abs(target - ease_iter(p, target, step, m)) < step,
{
    lemma_ease_iter_distance(p, target, step, n, r, n);
    assert((n - n) * step == 0) by (nonlinear_arith);
    lemma_ease_iter_add(p, target, step, n, (m - n) as nat);
    lemma_ease_oscillates(ease_iter(p, target, step, n), target, step, (m - n) as nat);
}

} // verus!
