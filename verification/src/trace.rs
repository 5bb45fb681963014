//! The per-pixel evaluator: ray construction from pixel coordinates,
//! analytic ray-sphere intersection, normal-based shading, the sky-gradient
//! background, and the loop over the scene's spheres.

use vstd::prelude::*;
use crate::math::COORD_MAX;
use crate::math::SCALE;
use crate::math::T_MAX;
use crate::math::div_nonneg;
use crate::math::isqrt;
use crate::math::isqrt_spec;
use crate::math::lemma_mul_bound;
use crate::math::lemma_sqrt_compare;
use crate::scene::SceneParams;
use crate::scene::Sphere;
use crate::scene::Spheres;
use crate::scene::wf_sphere;
use crate::vec3::Vec3;
use crate::vec3::dot;
use crate::vec3::dot3;
use crate::vec3::in_range;
use crate::vec3::lemma_dot_self_nonneg;
use crate::vec3::normalize;
use crate::vec3::unit3;

verus! {

/// Sky-gradient target color, red component: 0.5 in fixed point.
pub const SKY_RED: i128 = 5000;

/// Sky-gradient target color, green component: 0.7 in fixed point.
pub const SKY_GREEN: i128 = 7000;

/// Sky-gradient target color, blue component: 1.0 in fixed point.
pub const SKY_BLUE: i128 = 10000;

/// A ray: start point and (not necessarily unit-length) direction.
#[derive(Clone, Copy, PartialEq, Eq, Structural, Debug)]
pub struct Ray {
    pub start: Vec3,
    pub direction: Vec3,
}

/// A ray the evaluator accepts: in-range components and a direction that is
/// not the zero vector. A zero-length direction is degenerate geometry.
pub open spec fn wf_ray(r: Ray) -> bool {
    &&& in_range(r.start)
    &&& in_range(r.direction)
    &&& dot(r.direction, r.direction) > 0
}

/// A color with components in fixed-point units: `SCALE` is full intensity.
#[derive(Clone, Copy, PartialEq, Eq, Structural, Debug)]
pub struct Color {
    pub r: i128,
    pub g: i128,
    pub b: i128,
}

/// The components of a color, as unbounded integers.
pub open spec fn color_view(c: Color) -> (int, int, int) {
    (c.r as int, c.g as int, c.b as int)
}

/// Every component within `[0, SCALE]`.
pub open spec fn wf_color(c: Color) -> bool {
    &&& 0 <= c.r <= SCALE
    &&& 0 <= c.g <= SCALE
    &&& 0 <= c.b <= SCALE
}

/// Leading quadratic coefficient of the intersection equation: the squared
/// length of the ray's direction.
pub open spec fn quad_a(r: Ray) -> int {
    dot(r.direction, r.direction)
}

/// Middle quadratic coefficient: twice the dot product of the center-to-start
/// offset with the ray's direction.
pub open spec fn quad_b(r: Ray, s: Sphere) -> int {
    2 * dot3(
        r.start.x - s.position.x,
        r.start.y - s.position.y,
        r.start.z - s.position.z,
        r.direction.x as int,
        r.direction.y as int,
        r.direction.z as int,
    )
}

/// Constant quadratic coefficient: the squared center-to-start distance minus
/// the squared radius.
pub open spec fn quad_c(r: Ray, s: Sphere) -> int {
    dot3(
        r.start.x - s.position.x,
        r.start.y - s.position.y,
        r.start.z - s.position.z,
        r.start.x - s.position.x,
        r.start.y - s.position.y,
        r.start.z - s.position.z,
    ) - s.radius * s.radius
}

/// Discriminant of the intersection equation, `b*b - 4*a*c`. Negative exactly
/// when the ray's line misses the sphere.
pub open spec fn discriminant_of(r: Ray, s: Sphere) -> int {
    quad_b(r, s) * quad_b(r, s) - 4 * (quad_a(r) * quad_c(r, s))
}

/// Whether the ray hits the sphere at a strictly positive parameter: the
/// discriminant is non-negative and the near root `(-b - sqrt(disc)) / (2a)`
/// is positive, which for `a > 0` is exactly `b < 0` and `b*b > disc`.
pub open spec fn sphere_hit(r: Ray, s: Sphere) -> bool {
    &&& discriminant_of(r, s) >= 0
    &&& quad_b(r, s) < 0
    &&& quad_b(r, s) * quad_b(r, s) > discriminant_of(r, s)
}

/// The near intersection parameter in fixed-point units: `SCALE` times the
/// smaller quadratic root, rounded down.
pub open spec fn hit_t(r: Ray, s: Sphere) -> int {
    SCALE * (-quad_b(r, s) - isqrt_spec(discriminant_of(r, s))) / (2 * quad_a(r))
}

/// Computes the discriminant of the ray-sphere intersection equation.
pub fn discriminant(ray: &Ray, sphere: &Sphere) -> (d: i128)
    requires
        wf_ray(*ray),
        wf_sphere(*sphere),
    ensures
        d == discriminant_of(*ray, *sphere),
{
    let sc = ray.start.sub(&sphere.position);
    let a = ray.direction.dot(&ray.direction, COORD_MAX);
    let halfb = sc.dot(&ray.direction, 2 * COORD_MAX);
    let b = 2 * halfb;
    let scsc = sc.dot(&sc, 2 * COORD_MAX);
    proof {
        lemma_mul_bound(sphere.radius as int, sphere.radius as int, COORD_MAX as int,
            COORD_MAX as int);
        assert((COORD_MAX as int) * (COORD_MAX as int) == 281474976710656int) by (nonlinear_arith);
        assert((2 * COORD_MAX) * (2 * COORD_MAX) == 1125899906842624int) by (nonlinear_arith);
        lemma_mul_bound(b as int, b as int, 6755399441055744int, 6755399441055744int);
        assert(6755399441055744int * 6755399441055744int
            == 45635421608216258453881315393536int) by (nonlinear_arith);
        lemma_mul_bound(a as int, scsc - sphere.radius * sphere.radius, 844424930131968int,
            3659174697238528int);
        assert(844424930131968int * 3659174697238528int
            == 3089898338056309166148214063104int) by (nonlinear_arith);
    }
    let c = scsc - sphere.radius * sphere.radius;
    b * b - 4 * (a * c)
}

/// Tests a ray against one sphere. Returns the near intersection parameter,
/// in fixed-point units, when the ray hits the sphere at a strictly positive
/// parameter; returns nothing when the discriminant is negative or the near
/// root is not positive.
pub fn ray_sphere_collision(ray: &Ray, sphere: &Sphere) -> (res: Option<i128>)
    requires
        wf_ray(*ray),
        wf_sphere(*sphere),
    ensures
        res is Some <==> sphere_hit(*ray, *sphere),
        res matches Some(t) ==> t == hit_t(*ray, *sphere) && 0 <= t <= T_MAX,
{
    let sc = ray.start.sub(&sphere.position);
    let a = ray.direction.dot(&ray.direction, COORD_MAX);
    let halfb = sc.dot(&ray.direction, 2 * COORD_MAX);
    let b = 2 * halfb;
    let scsc = sc.dot(&sc, 2 * COORD_MAX);
    proof {
        lemma_mul_bound(sphere.radius as int, sphere.radius as int, COORD_MAX as int,
            COORD_MAX as int);
        assert((COORD_MAX as int) * (COORD_MAX as int) == 281474976710656int) by (nonlinear_arith);
        assert((2 * COORD_MAX) * (2 * COORD_MAX) == 1125899906842624int) by (nonlinear_arith);
        lemma_mul_bound(b as int, b as int, 6755399441055744int, 6755399441055744int);
        assert(6755399441055744int * 6755399441055744int
            == 45635421608216258453881315393536int) by (nonlinear_arith);
        lemma_mul_bound(a as int, scsc - sphere.radius * sphere.radius, 844424930131968int,
            3659174697238528int);
        assert(844424930131968int * 3659174697238528int
            == 3089898338056309166148214063104int) by (nonlinear_arith);
    }
    let c = scsc - sphere.radius * sphere.radius;
    let disc = b * b - 4 * (a * c);
    if disc < 0 {
        return None;
    }
    if b >= 0 {
        return None;
    }
    let root = isqrt(disc);
    if b * b <= disc {
        return None;
    }
    proof {
        // The near root is strictly positive: sqrt(disc) < -b.
        assert(root < -b) by (nonlinear_arith)
            requires
                root * root <= disc,
                disc < b * b,
                b < 0,
                root >= 0,
        ;
        // Bound the numerator by a multiple of `a`, so that the division by
        // `2 * a` leaves a bounded parameter: |sc . dir| <= 2*CM*(3 + |dir|^2)
        // component by component, and 3 <= 3*a since a >= 1.
        assert(sc.x * ray.direction.x <= 33554432 + 33554432 * (ray.direction.x * ray.direction.x)
            && -(sc.x * ray.direction.x) <= 33554432 + 33554432 * (ray.direction.x
            * ray.direction.x)) by (nonlinear_arith)
            requires
                -33554432 <= sc.x <= 33554432,
        ;
        assert(sc.y * ray.direction.y <= 33554432 + 33554432 * (ray.direction.y * ray.direction.y)
            && -(sc.y * ray.direction.y) <= 33554432 + 33554432 * (ray.direction.y
            * ray.direction.y)) by (nonlinear_arith)
            requires
                -33554432 <= sc.y <= 33554432,
        ;
        assert(sc.z * ray.direction.z <= 33554432 + 33554432 * (ray.direction.z * ray.direction.z)
            && -(sc.z * ray.direction.z) <= 33554432 + 33554432 * (ray.direction.z
            * ray.direction.z)) by (nonlinear_arith)
            requires
                -33554432 <= sc.z <= 33554432,
        ;
        assert(-b <= 268435456 * a);
    }
    let num = -b - root;
    proof {
        lemma_sqrt_compare(root as int, 7700000000000000int);
        assert(7700000000000000int * 7700000000000000int
            == 59290000000000000000000000000000int) by (nonlinear_arith);
        lemma_mul_bound(SCALE as int, num as int, SCALE as int, 15000000000000000int);
        assert((SCALE as int) * 15000000000000000int == 150000000000000000000int)
            by (nonlinear_arith);
        vstd::arithmetic::mul::lemma_mul_inequality(num as int, 268435456 * a, SCALE as int);
        assert((268435456 * a) * (SCALE as int) == (2 * a) * (T_MAX as int))
            by (nonlinear_arith)
            requires
                T_MAX == 1342177280000,
                SCALE == 10000,
        ;
        vstd::arithmetic::div_mod::lemma_div_multiples_vanish(T_MAX as int, 2 * a);
        vstd::arithmetic::div_mod::lemma_div_is_ordered(
            SCALE as int * num as int,
            (2 * a) * (T_MAX as int),
            2 * a,
        );
    }
    let t = div_nonneg(SCALE * num, 2 * a);
    Some(t)
}

/// The displacement along one axis after parameter `t`: `t * d / SCALE`,
/// rounded toward zero.
pub open spec fn scaled_step(t: int, d: int) -> int {
    if d >= 0 {
        t * d / (SCALE as int)
    } else {
        -(t * (-d) / (SCALE as int))
    }
}

/// Computes `scaled_step` for a bounded parameter and an in-range component.
fn step_component(t: i128, d: i128) -> (r: i128)
    requires
        0 <= t <= T_MAX,
        -COORD_MAX <= d <= COORD_MAX,
    ensures
        r == scaled_step(t as int, d as int),
        -2251799813685248 <= r <= 2251799813685248,
{
    proof {
        assert((T_MAX as int) * (COORD_MAX as int) == (SCALE as int) * 2251799813685248int)
            by (nonlinear_arith);
        vstd::arithmetic::div_mod::lemma_div_multiples_vanish(2251799813685248int, SCALE as int);
    }
    if d >= 0 {
        proof {
            lemma_mul_bound(t as int, d as int, T_MAX as int, COORD_MAX as int);
            vstd::arithmetic::div_mod::lemma_div_is_ordered(
                t as int * d as int,
                (SCALE as int) * 2251799813685248int,
                SCALE as int,
            );
        }
        div_nonneg(t * d, SCALE)
    } else {
        let nd = -d;
        proof {
            lemma_mul_bound(t as int, nd as int, T_MAX as int, COORD_MAX as int);
            vstd::arithmetic::div_mod::lemma_div_is_ordered(
                t as int * nd as int,
                (SCALE as int) * 2251799813685248int,
                SCALE as int,
            );
        }
        let m = div_nonneg(t * nd, SCALE);
        -m
    }
}

/// The color shown where a ray hits a sphere: the surface normal at the hit
/// point, mapped from `[-1, 1]` to `[0, 1]` per component, in fixed point:
/// `0.5 * (normalize(hit - center) + (1, 1, 1))`.
pub open spec fn sphere_color(r: Ray, s: Sphere) -> (int, int, int) {
    let t = hit_t(r, s);
    let n = unit3(
        r.start.x + scaled_step(t, r.direction.x as int) - s.position.x,
        r.start.y + scaled_step(t, r.direction.y as int) - s.position.y,
        r.start.z + scaled_step(t, r.direction.z as int) - s.position.z,
    );
    ((n.0 + SCALE) / 2, (n.1 + SCALE) / 2, (n.2 + SCALE) / 2)
}

/// Computes the normal-based surface color at the hit point given by the
/// intersection parameter `t`. Every component lies in `[0, SCALE]`.
pub fn sphere_surface_color(ray: &Ray, sphere: &Sphere, t: i128) -> (c: Color)
    requires
        wf_ray(*ray),
        wf_sphere(*sphere),
        0 <= t <= T_MAX,
        t == hit_t(*ray, *sphere),
    ensures
        color_view(c) == sphere_color(*ray, *sphere),
        wf_color(c),
{
    let hx = ray.start.x + step_component(t, ray.direction.x) - sphere.position.x;
    let hy = ray.start.y + step_component(t, ray.direction.y) - sphere.position.y;
    let hz = ray.start.z + step_component(t, ray.direction.z) - sphere.position.z;
    let n = normalize(&Vec3 { x: hx, y: hy, z: hz }, 2260000000000000);
    let cr = div_nonneg(n.x + SCALE, 2);
    let cg = div_nonneg(n.y + SCALE, 2);
    let cb = div_nonneg(n.z + SCALE, 2);
    proof {
        vstd::arithmetic::div_mod::lemma_div_is_ordered(n.x as int + SCALE, 2 * SCALE, 2);
        vstd::arithmetic::div_mod::lemma_div_is_ordered(n.y as int + SCALE, 2 * SCALE, 2);
        vstd::arithmetic::div_mod::lemma_div_is_ordered(n.z as int + SCALE, 2 * SCALE, 2);
        vstd::arithmetic::div_mod::lemma_div_multiples_vanish(SCALE as int, 2);
    }
    Color { r: cr, g: cg, b: cb }
}

/// One component of the background gradient: the linear blend
/// `((SCALE - t) * white + t * sky) / SCALE` with white fixed at full
/// intensity and `sky` the component of the sky-blue target.
pub open spec fn grad_comp(t: int, sky: int) -> int {
    ((SCALE - t) * SCALE + t * sky) / (SCALE as int)
}

/// The background gradient color for a unit direction's vertical component
/// `uy`: white at the bottom blending to sky-blue at the top.
pub open spec fn gradient_color(uy: int) -> (int, int, int) {
    let t = (uy + SCALE) / 2;
    (grad_comp(t, SKY_RED as int), grad_comp(t, SKY_GREEN as int), grad_comp(t, SKY_BLUE as int))
}

/// The background color of a ray: the gradient evaluated at the normalized
/// direction's vertical component.
pub open spec fn background_color(r: Ray) -> (int, int, int) {
    gradient_color(
        unit3(r.direction.x as int, r.direction.y as int, r.direction.z as int).1,
    )
}

/// Computes one blended gradient component, in `[0, SCALE]`.
fn gradient_part(t: i128, sky: i128) -> (r: i128)
    requires
        0 <= t <= SCALE,
        0 <= sky <= SCALE,
    ensures
        r == grad_comp(t as int, sky as int),
        0 <= r <= SCALE,
{
    proof {
        lemma_mul_bound((SCALE - t) as int, SCALE as int, SCALE as int, SCALE as int);
        lemma_mul_bound(t as int, sky as int, SCALE as int, SCALE as int);
        assert((SCALE as int) * (SCALE as int) == 100000000int) by (nonlinear_arith);
        vstd::arithmetic::mul::lemma_mul_nonnegative((SCALE - t) as int, SCALE as int);
        vstd::arithmetic::mul::lemma_mul_nonnegative(t as int, sky as int);
        vstd::arithmetic::mul::lemma_mul_inequality(sky as int, SCALE as int, t as int);
        vstd::arithmetic::div_mod::lemma_div_multiples_vanish(SCALE as int, SCALE as int);
        vstd::arithmetic::div_mod::lemma_div_is_ordered(
            ((SCALE - t) as int) * (SCALE as int) + (t as int) * (sky as int),
            (SCALE as int) * (SCALE as int),
            SCALE as int,
        );
    }
    div_nonneg((SCALE - t) * SCALE + t * sky, SCALE)
}

/// The background for a ray that hits nothing: a vertical gradient from white
/// toward sky-blue, driven by the normalized direction's vertical component.
pub fn ray_color(ray: &Ray) -> (c: Color)
    requires
        wf_ray(*ray),
    ensures
        color_view(c) == background_color(*ray),
        wf_color(c),
{
    let u = normalize(&ray.direction, COORD_MAX);
    proof {
        vstd::arithmetic::div_mod::lemma_div_is_ordered(u.y as int + SCALE, 2 * SCALE, 2);
        vstd::arithmetic::div_mod::lemma_div_multiples_vanish(SCALE as int, 2);
    }
    let t = div_nonneg(u.y + SCALE, 2);
    Color {
        r: gradient_part(t, SKY_RED),
        g: gradient_part(t, SKY_GREEN),
        b: gradient_part(t, SKY_BLUE),
    }
}

/// The color a ray produces against a list of spheres: the background first,
/// then each sphere in list order overwrites the color where it reports a
/// hit. The policy is last hit wins, not nearest hit wins.
pub open spec fn trace_spec(spheres: Seq<Sphere>, r: Ray) -> (int, int, int)
    decreases spheres.len(),
{
    if spheres.len() == 0 {
        background_color(r)
    } else if sphere_hit(r, spheres.last()) {
        sphere_color(r, spheres.last())
    } else {
        trace_spec(spheres.drop_last(), r)
    }
}

/// Evaluates one ray against the whole scene: the background gradient,
/// overwritten by the surface color of every sphere the ray hits, in list
/// order (last hit wins).
pub fn trace_ray(spheres: &Spheres, ray: &Ray) -> (c: Color)
    requires
        spheres.wf(),
        wf_ray(*ray),
    ensures
        color_view(c) == trace_spec(spheres@, *ray),
        wf_color(c),
{
    let mut color = ray_color(ray);
    let mut i: usize = 0;
    while i < spheres.len()
        invariant
            i <= spheres@.len(),
            spheres.wf(),
            wf_ray(*ray),
            color_view(color) == trace_spec(spheres@.subrange(0, i as int), *ray),
            wf_color(color),
        decreases spheres@.len() - i,
    {
        let s = spheres.get(i);
        match ray_sphere_collision(ray, &s) {
            Some(t) => {
                color = sphere_surface_color(ray, &s, t);
            },
            None => {},
        }
        proof {
            assert(spheres@.subrange(0, i + 1).drop_last() =~= spheres@.subrange(0, i as int));
            assert(spheres@.subrange(0, i + 1).last() == spheres@[i as int]);
        }
        i = i + 1;
    }
    proof {
        assert(spheres@.subrange(0, spheres@.len() as int) =~= spheres@);
    }
    color
}

/// The ray through a pixel: it starts at the camera's position; its direction
/// maps the pixel onto the image plane at distance `focal_length`, with both
/// axes divided by the viewport width so the vertical extent follows the
/// aspect ratio.
pub open spec fn pixel_ray_spec(p: SceneParams, px: int, py: int) -> Ray {
    Ray {
        start: p.camera.position,
        direction: Vec3 {
            x: (2 * SCALE * px / (p.width as int) - SCALE) as i128,
            y: (2 * SCALE * py / (p.width as int) - SCALE * p.height / (p.width as int)) as i128,
            z: (-p.focal_length) as i128,
        },
    }
}

/// Builds the ray for one pixel of the viewport.
pub fn pixel_ray(params: &SceneParams, px: i128, py: i128) -> (r: Ray)
    requires
        params.wf(),
        0 <= px < params.width,
        0 <= py < params.height,
    ensures
        r == pixel_ray_spec(*params, px as int, py as int),
        wf_ray(r),
{
    proof {
        let w = params.width as int;
        let h = params.height as int;
        assert((2 * (SCALE as int)) * (px as int) == 20000 * (px as int)) by (nonlinear_arith)
            requires
                SCALE == 10000,
        ;
        assert((2 * (SCALE as int)) * (py as int) == 20000 * (py as int)) by (nonlinear_arith)
            requires
                SCALE == 10000,
        ;
        assert((SCALE as int) * h == 10000 * h) by (nonlinear_arith)
            requires
                SCALE == 10000,
        ;
        assert(w * (2 * (SCALE as int)) == 20000 * w) by (nonlinear_arith)
            requires
                SCALE == 10000,
        ;
        assert(w * (1600 * (SCALE as int)) == 16000000 * w) by (nonlinear_arith)
            requires
                SCALE == 10000,
        ;
        assert(w * (800 * (SCALE as int)) == 8000000 * w) by (nonlinear_arith)
            requires
                SCALE == 10000,
        ;
        vstd::arithmetic::div_mod::lemma_multiply_divide_lt(
            2 * SCALE as int * px as int,
            w,
            2 * SCALE as int,
        );
        vstd::arithmetic::div_mod::lemma_multiply_divide_lt(
            2 * SCALE as int * py as int,
            w,
            1600 * SCALE as int,
        );
        vstd::arithmetic::div_mod::lemma_div_is_ordered(
            SCALE as int * h,
            w * (800 * SCALE as int),
            w,
        );
        vstd::arithmetic::div_mod::lemma_div_multiples_vanish(800 * SCALE as int, w);
    }
    let ax = div_nonneg(2 * SCALE * px, params.width);
    let ay = div_nonneg(2 * SCALE * py, params.width);
    let ah = div_nonneg(SCALE * params.height, params.width);
    let dir = Vec3 { x: ax - SCALE, y: ay - ah, z: -params.focal_length };
    proof {
        lemma_dot_self_nonneg(dir.x as int, dir.y as int, dir.z as int);
        assert(dir.z * dir.z >= 1) by (nonlinear_arith)
            requires
                dir.z <= -1,
        ;
    }
    Ray { start: params.camera.position, direction: dir }
}

/// Evaluates the color of one pixel: builds the pixel's ray and traces it
/// against the scene.
pub fn pixel_color(params: &SceneParams, px: i128, py: i128) -> (c: Color)
    requires
        params.wf(),
        0 <= px < params.width,
        0 <= py < params.height,
    ensures
        color_view(c) == trace_spec(
            params.spheres@,
            pixel_ray_spec(*params, px as int, py as int),
        ),
        wf_color(c),
{
    let ray = pixel_ray(params, px, py);
    trace_ray(&params.spheres, &ray)
}

} // verus!
