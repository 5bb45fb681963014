//! Geometric guarantees of the evaluator, stated and proved over the same
//! spec functions its contracts use.

use vstd::prelude::*;
use crate::math::SCALE;
use crate::scene::Sphere;
use crate::scene::wf_sphere;
use crate::trace::Ray;
use crate::trace::background_color;
use crate::trace::discriminant_of;
use crate::trace::grad_comp;
use crate::trace::gradient_color;
use crate::trace::quad_a;
use crate::trace::quad_b;
use crate::trace::quad_c;
use crate::trace::sphere_color;
use crate::trace::sphere_hit;
use crate::trace::trace_spec;
use crate::trace::wf_ray;

verus! {

/// The ray's line stays strictly farther from the sphere's center than the
/// radius: the squared center distance of the line's closest point exceeds
/// the squared radius (both sides scaled by `4 * quad_a`, which is positive
/// for an accepted ray; `quad_c + radius^2` is the squared center-to-start
/// distance).
pub open spec fn line_misses(r: Ray, s: Sphere) -> bool {
    4 * (quad_a(r) * (quad_c(r, s) + s.radius * s.radius)) - quad_b(r, s) * quad_b(r, s) > 4 * (
    quad_a(r) * (s.radius * s.radius))
}

/// A line that misses the sphere gives a negative discriminant, so the
/// sphere reports no hit.
pub proof fn lemma_line_miss_no_hit(r: Ray, s: Sphere)
    requires
        line_misses(r, s),
    ensures
        discriminant_of(r, s) < 0,
        !sphere_hit(r, s),
{
    let a = quad_a(r);
    let c = quad_c(r, s);
    let rr = s.radius * s.radius;
    assert(a * (c + rr) - a * rr == a * c) by (nonlinear_arith);
}

/// A ray whose origin lies outside every sphere and whose line never comes
/// within a radius of any center produces exactly the background gradient:
/// no sphere code path triggers.
pub proof fn lemma_all_miss_background(spheres: Seq<Sphere>, r: Ray)
    requires
        forall|i: int| 0 <= i < spheres.len() ==> line_misses(r, #[trigger] spheres[i]),
    ensures
        trace_spec(spheres, r) == background_color(r),
    decreases spheres.len(),
{
    if spheres.len() > 0 {
        lemma_line_miss_no_hit(r, spheres.last());
        lemma_all_miss_background(spheres.drop_last(), r);
    }
}

/// A ray aimed straight at a sphere's center hits it whenever the start lies
/// outside the sphere: for a center at `start + k * direction` with `k >= 1`,
/// the discriminant is non-negative and a strictly positive intersection
/// parameter is reported. The sphere is then centered at the ray's
/// closest-approach point.
pub proof fn lemma_centered_sphere_hit(r: Ray, s: Sphere, k: int)
    requires
        wf_ray(r),
        wf_sphere(s),
        k >= 1,
        s.position.x == r.start.x + k * r.direction.x,
        s.position.y == r.start.y + k * r.direction.y,
        s.position.z == r.start.z + k * r.direction.z,
        k * k * quad_a(r) > s.radius * s.radius,
    ensures
        discriminant_of(r, s) >= 0,
        sphere_hit(r, s),
{
    let a = quad_a(r);
    let b = quad_b(r, s);
    let c = quad_c(r, s);
    let rr = s.radius * s.radius;
    let dx = r.direction.x as int;
    let dy = r.direction.y as int;
    let dz = r.direction.z as int;
    assert(b == 2 * ((-(k * dx)) * dx + (-(k * dy)) * dy + (-(k * dz)) * dz));
    assert((-(k * dx)) * dx + (-(k * dy)) * dy + (-(k * dz)) * dz == -(k * (dx * dx + dy * dy + dz
        * dz))) by (nonlinear_arith);
    assert(b == -2 * (k * a));
    assert(k * a >= a) by (nonlinear_arith)
        requires
            k >= 1,
            a > 0,
    ;
    assert((-(k * dx)) * (-(k * dx)) == (k * k) * (dx * dx)) by (nonlinear_arith);
    assert((-(k * dy)) * (-(k * dy)) == (k * k) * (dy * dy)) by (nonlinear_arith);
    assert((-(k * dz)) * (-(k * dz)) == (k * k) * (dz * dz)) by (nonlinear_arith);
    vstd::arithmetic::mul::lemma_mul_is_distributive_add(k * k, dx * dx + dy * dy, dz * dz);
    vstd::arithmetic::mul::lemma_mul_is_distributive_add(k * k, dx * dx, dy * dy);
    assert(c == k * k * a - rr);
    assert((-2 * (k * a)) * (-2 * (k * a)) - 4 * (a * (k * k * a - rr)) == 4 * (a * rr))
        by (nonlinear_arith);
    assert(a * rr > 0) by (nonlinear_arith)
        requires
            a > 0,
            s.radius > 0,
            rr == s.radius * s.radius,
    ;
    assert(4 * (a * rr) < (-2 * (k * a)) * (-2 * (k * a))) by (nonlinear_arith)
        requires
            k * k * a > rr,
            a > 0,
    ;
}

/// For a ray aimed from outside a sphere toward it (origin strictly outside,
/// direction making the middle coefficient negative), the discriminant's
/// sign alone decides the hit: a hit is reported exactly when the
/// discriminant is non-negative.
pub proof fn lemma_discriminant_decides(r: Ray, s: Sphere)
    requires
        wf_ray(r),
        quad_b(r, s) < 0,
        quad_c(r, s) > 0,
    ensures
        sphere_hit(r, s) <==> discriminant_of(r, s) >= 0,
{
    if discriminant_of(r, s) >= 0 {
        assert(quad_a(r) * quad_c(r, s) > 0) by (nonlinear_arith)
            requires
                quad_a(r) > 0,
                quad_c(r, s) > 0,
        ;
    }
}

/// The background gradient moves monotonically from white toward sky-blue as
/// the unit direction's vertical component grows: red and green never
/// increase, and blue stays at full intensity.
pub proof fn lemma_gradient_monotone(y1: int, y2: int)
    requires
        -SCALE <= y1 <= y2 <= SCALE,
    ensures
        gradient_color(y1).0 >= gradient_color(y2).0,
        gradient_color(y1).1 >= gradient_color(y2).1,
        gradient_color(y1).2 == gradient_color(y2).2,
{
    let t1 = (y1 + SCALE) / 2;
    let t2 = (y2 + SCALE) / 2;
    vstd::arithmetic::div_mod::lemma_div_is_ordered(y1 + SCALE, y2 + SCALE, 2);
    vstd::arithmetic::div_mod::lemma_div_pos_is_pos(y1 + SCALE, 2);
    vstd::arithmetic::div_mod::lemma_div_is_ordered(y1 + SCALE, 2 * SCALE, 2);
    vstd::arithmetic::div_mod::lemma_div_is_ordered(y2 + SCALE, 2 * SCALE, 2);
    vstd::arithmetic::div_mod::lemma_div_multiples_vanish(SCALE as int, 2);
    lemma_grad_comp_antitone(t1, t2, 5000);
    lemma_grad_comp_antitone(t1, t2, 7000);
    lemma_grad_comp_blue(t1);
    lemma_grad_comp_blue(t2);
}

/// A blend toward a darker target never gets brighter as the blend parameter
/// grows.
proof fn lemma_grad_comp_antitone(t1: int, t2: int, sky: int)
    requires
        0 <= t1 <= t2 <= SCALE,
        0 <= sky <= SCALE,
    ensures
        grad_comp(t1, sky) >= grad_comp(t2, sky),
{
    assert((SCALE - t1) * SCALE == 100000000 - 10000 * t1) by (nonlinear_arith)
        requires
            SCALE == 10000,
    ;
    assert((SCALE - t2) * SCALE == 100000000 - 10000 * t2) by (nonlinear_arith)
        requires
            SCALE == 10000,
    ;
    assert(t2 * sky + 10000 * t1 <= t1 * sky + 10000 * t2) by (nonlinear_arith)
        requires
            t1 <= t2,
            sky <= 10000,
    ;
    vstd::arithmetic::div_mod::lemma_div_is_ordered(
        (SCALE - t2) * SCALE + t2 * sky,
        (SCALE - t1) * SCALE + t1 * sky,
        SCALE as int,
    );
}

/// Blending white toward full-intensity blue leaves the component at full
/// intensity.
proof fn lemma_grad_comp_blue(t: int)
    requires
        0 <= t <= SCALE,
    ensures
        grad_comp(t, SCALE as int) == SCALE,
{
    assert((SCALE - t) * SCALE + t * SCALE == SCALE * SCALE) by (nonlinear_arith);
    assert((SCALE as int) * (SCALE as int) == 100000000int) by (nonlinear_arith);
    assert(100000000int / 10000int == 10000int);
}

/// The multi-sphere overwrite policy: when two spheres in the list both
/// report a hit on the same ray, the color of the later one wins. The
/// evaluator resolves overlaps by list order (last hit wins), not by
/// distance.
pub proof fn lemma_overwrite_order(s1: Sphere, s2: Sphere, r: Ray)
    requires
        sphere_hit(r, s1),
        sphere_hit(r, s2),
    ensures
        trace_spec(seq![s1, s2], r) == sphere_color(r, s2),
{
    assert(seq![s1, s2].last() == s2);
}

} // verus!
