//! Concrete evaluations of the intersection and shading pipeline.

use raytracer::math::{isqrt, COORD_MAX, SCALE};
use raytracer::scene::{calculate_uniforms, Sphere, SceneError, Spheres};
use raytracer::trace::{
    discriminant, pixel_color, pixel_ray, ray_color, ray_sphere_collision, trace_ray, Color, Ray,
};
use raytracer::vec3::{normalize, Vec3};

fn demo_sphere() -> Sphere {
    // Center (0, 0, -1), radius 0.3, in fixed point.
    Sphere { position: Vec3 { x: 0, y: 0, z: -10000 }, radius: 3000 }
}

fn axis_ray() -> Ray {
    // From the origin straight down the negative z axis, unit length.
    Ray {
        start: Vec3 { x: 0, y: 0, z: 0 },
        direction: Vec3 { x: 0, y: 0, z: -10000 },
    }
}

#[test]
fn isqrt_exact_values() {
    assert_eq!(isqrt(0), 0);
    assert_eq!(isqrt(15), 3);
    assert_eq!(isqrt(16), 4);
    assert_eq!(isqrt(1000000000000000000), 1000000000);
}

#[test]
fn normalize_exact() {
    let u = normalize(&Vec3 { x: 30000, y: 40000, z: 0 }, COORD_MAX);
    assert_eq!(u, Vec3 { x: 6000, y: 8000, z: 0 });
}

#[test]
fn normalize_zero_vector() {
    let u = normalize(&Vec3 { x: 0, y: 0, z: 0 }, COORD_MAX);
    assert_eq!(u, Vec3 { x: 0, y: 0, z: 0 });
}

#[test]
fn center_ray_hits_at_seven_tenths() {
    // A unit ray down -z from the origin meets the sphere at t = 0.7.
    let t = ray_sphere_collision(&axis_ray(), &demo_sphere());
    assert_eq!(t, Some(7000));
}

#[test]
fn hit_point_lies_on_the_surface() {
    // With t = 0.7 the hit point is (0, 0, -0.7), exactly a radius away
    // from the center (0, 0, -1).
    let t = ray_sphere_collision(&axis_ray(), &demo_sphere()).unwrap();
    let hz = 0 + t * -10000 / SCALE;
    let dist2 = (0 - 0) * (0 - 0) + (0 - 0) * (0 - 0) + (hz - -10000) * (hz - -10000);
    assert_eq!(isqrt(dist2), demo_sphere().radius);
}

#[test]
fn center_hit_color_is_normal_based() {
    // Surface normal at the near pole is +z: color 0.5 * (n + 1) =
    // (0.5, 0.5, 1.0).
    let ray = axis_ray();
    let sphere = demo_sphere();
    let mut list = Spheres::new();
    list.push(sphere).unwrap();
    let c = trace_ray(&list, &ray);
    assert_eq!(c, Color { r: 5000, g: 5000, b: 10000 });
}

#[test]
fn discriminant_sign_decides_over_sweep() {
    // Sweep the ray start sideways: the sphere of radius 0.3 is hit exactly
    // while the lateral offset stays within the radius, and the discriminant
    // sign flips at the same offset.
    let sphere = demo_sphere();
    for step in 0..13 {
        let xo = 500 * step;
        let ray = Ray {
            start: Vec3 { x: xo, y: 0, z: 0 },
            direction: Vec3 { x: 0, y: 0, z: -10000 },
        };
        let d = discriminant(&ray, &sphere);
        let hit = ray_sphere_collision(&ray, &sphere);
        assert_eq!(d >= 0, hit.is_some());
        assert_eq!(hit.is_some(), xo <= 3000);
    }
}

#[test]
fn tangent_ray_still_reports_a_hit() {
    // At a lateral offset equal to the radius the discriminant is exactly
    // zero and the grazing hit is reported at t = 1.
    let ray = Ray {
        start: Vec3 { x: 3000, y: 0, z: 0 },
        direction: Vec3 { x: 0, y: 0, z: -10000 },
    };
    assert_eq!(discriminant(&ray, &demo_sphere()), 0);
    assert_eq!(ray_sphere_collision(&ray, &demo_sphere()), Some(10000));
}

#[test]
fn miss_returns_background_gradient() {
    // A ray pointing away from the sphere shows only the sky gradient.
    let ray = Ray {
        start: Vec3 { x: 0, y: 0, z: 0 },
        direction: Vec3 { x: 0, y: 0, z: 10000 },
    };
    let mut list = Spheres::new();
    list.push(demo_sphere()).unwrap();
    assert_eq!(trace_ray(&list, &ray), ray_color(&ray));
}

#[test]
fn background_gradient_exact_values() {
    // Horizontal: halfway blend. Straight up: sky-blue. Straight down: white.
    let level = Ray {
        start: Vec3 { x: 0, y: 0, z: 0 },
        direction: Vec3 { x: 0, y: 0, z: -10000 },
    };
    assert_eq!(ray_color(&level), Color { r: 7500, g: 8500, b: 10000 });
    let up = Ray {
        start: Vec3 { x: 0, y: 0, z: 0 },
        direction: Vec3 { x: 0, y: 10000, z: 0 },
    };
    assert_eq!(ray_color(&up), Color { r: 5000, g: 7000, b: 10000 });
    let down = Ray {
        start: Vec3 { x: 0, y: 0, z: 0 },
        direction: Vec3 { x: 0, y: -10000, z: 0 },
    };
    assert_eq!(ray_color(&down), Color { r: 10000, g: 10000, b: 10000 });
}

#[test]
fn background_monotone_in_vertical_component() {
    // Rays of equal length with growing vertical component: red and green
    // never increase, blue never changes.
    let mut prev: Option<Color> = None;
    let dirs = [
        (0, -10000, 0),
        (0, -8000, 6000),
        (0, 0, 10000),
        (0, 8000, 6000),
        (0, 10000, 0),
    ];
    for (x, y, z) in dirs {
        let ray = Ray { start: Vec3 { x: 0, y: 0, z: 0 }, direction: Vec3 { x, y, z } };
        let c = ray_color(&ray);
        if let Some(p) = prev {
            assert!(c.r <= p.r);
            assert!(c.g <= p.g);
            assert_eq!(c.b, p.b);
        }
        prev = Some(c);
    }
}

#[test]
fn overlapping_spheres_last_hit_wins() {
    // Two spheres both straddle the ray; the color comes from whichever is
    // later in the list, not from the nearer one.
    let ray = axis_ray();
    let above = Sphere { position: Vec3 { x: 0, y: 1000, z: -10000 }, radius: 3000 };
    let below = Sphere { position: Vec3 { x: 0, y: -1000, z: -10000 }, radius: 3000 };

    let mut only_above = Spheres::new();
    only_above.push(above).unwrap();
    let color_above = trace_ray(&only_above, &ray);
    let mut only_below = Spheres::new();
    only_below.push(below).unwrap();
    let color_below = trace_ray(&only_below, &ray);
    assert_ne!(color_above, color_below);
    assert_eq!(color_above, Color { r: 5000, g: 3333, b: 9715 });
    assert_eq!(color_below, Color { r: 5000, g: 6666, b: 9715 });

    let mut ab = Spheres::new();
    ab.push(above).unwrap();
    ab.push(below).unwrap();
    assert_eq!(trace_ray(&ab, &ray), color_below);

    let mut ba = Spheres::new();
    ba.push(below).unwrap();
    ba.push(above).unwrap();
    assert_eq!(trace_ray(&ba, &ray), color_above);
}

#[test]
fn image_center_pixel_hits_corner_misses() {
    // Through the frame the demo scene shows the sphere at the image center
    // and background at the far corner.
    let params = calculate_uniforms(&[demo_sphere()]).unwrap();
    let center = pixel_ray(&params, 300, 250);
    assert_eq!(center.direction, Vec3 { x: 0, y: 0, z: -10000 });
    assert_eq!(
        pixel_color(&params, 300, 250),
        Color { r: 5000, g: 5000, b: 10000 }
    );
    let corner = pixel_ray(&params, 0, 0);
    assert_eq!(corner.direction, Vec3 { x: -10000, y: -8333, z: -10000 });
    assert_eq!(ray_sphere_collision(&corner, &demo_sphere()), None);
    assert_eq!(
        pixel_color(&params, 0, 0),
        Color { r: 8769, g: 9261, b: 10000 }
    );
}

#[test]
fn scene_rejects_too_many_spheres() {
    let many = [demo_sphere(); 9];
    assert!(matches!(calculate_uniforms(&many), Err(SceneError::TooManySpheres)));
    let mut list = Spheres::new();
    for _ in 0..8 {
        assert_eq!(list.push(demo_sphere()), Ok(()));
    }
    assert_eq!(list.push(demo_sphere()), Err(SceneError::TooManySpheres));
    assert_eq!(list.len(), 8);
}

#[test]
fn scene_rejects_degenerate_sphere() {
    let flat = Sphere { position: Vec3 { x: 0, y: 0, z: 0 }, radius: 0 };
    assert!(matches!(calculate_uniforms(&[flat]), Err(SceneError::InvalidSphere)));
    let negative = Sphere { position: Vec3 { x: 0, y: 0, z: 0 }, radius: -5 };
    let mut list = Spheres::new();
    assert_eq!(list.push(negative), Err(SceneError::InvalidSphere));
    assert_eq!(list.len(), 0);
}

#[test]
fn scene_bundle_holds_the_frame_parameters() {
    let params = calculate_uniforms(&[demo_sphere()]).unwrap();
    assert_eq!(params.width, 600);
    assert_eq!(params.height, 500);
    assert_eq!(params.focal_length, 10000);
    assert_eq!(params.camera.position, Vec3 { x: 0, y: 0, z: 0 });
    assert_eq!(params.camera.direction, Vec3 { x: 0, y: 0, z: -10000 });
    assert_eq!(params.spheres.len(), 1);
    assert_eq!(params.spheres.get(0), demo_sphere());
    let expected_matrix = vec![
        10000, 0, 0, 0, 0, 10000, 0, 0, 0, 0, 10000, 0, 0, 0, 0, 10000i128,
    ];
    assert_eq!(params.matrix, expected_matrix);
}

#[test]
fn vector_dot_and_sub_exact() {
    let a = Vec3 { x: 1, y: 2, z: 3 };
    let b = Vec3 { x: 4, y: 5, z: 6 };
    assert_eq!(a.dot(&b, 10), 32);
    assert_eq!(a.sub(&b), Vec3 { x: -3, y: -3, z: -3 });
}
