use raytracer::camera::Camera;
use raytracer::fixed::SCALE;
use raytracer::fixed::fx_div;
use raytracer::fixed::fx_mul;
use raytracer::fixed::fx_sqrt;
use raytracer::hittable::HittableList;
use raytracer::material::Material;
use raytracer::material::reflect;
use raytracer::material::scatter;
use raytracer::material::schlick_reflectance;
use raytracer::math::RngSource;
use raytracer::math::near_zero;
use raytracer::math::random_in_unit_disk;
use raytracer::math::random_in_unit_sphere;
use raytracer::math::random_range;
use raytracer::math::random_unit_vector;
use raytracer::objects::Sphere;
use raytracer::ray::Ray;
use raytracer::render::quantize_channel;
use raytracer::render::render;
use raytracer::vec3::Vec3;

fn v(x: i64, y: i64, z: i64) -> Vec3 {
    Vec3::new(x, y, z)
}

const HALF: i64 = 500_000;

#[test]
fn fixed_point_arithmetic_exact_values() {
    assert_eq!(fx_mul(2 * SCALE, 3 * SCALE), 6 * SCALE);
    assert_eq!(fx_mul(HALF, HALF), 250_000);
    assert_eq!(fx_div(SCALE, 2 * SCALE), HALF);
    assert_eq!(fx_sqrt(4 * SCALE), 2 * SCALE);
    assert_eq!(fx_sqrt(250_000), HALF);
}

#[test]
fn vector_products_exact_values() {
    let a = v(SCALE, 2 * SCALE, 3 * SCALE);
    let b = v(4 * SCALE, 5 * SCALE, 6 * SCALE);
    assert_eq!(a.dot(&b), 32 * SCALE);
    let c = v(SCALE, 0, 0).cross(&v(0, SCALE, 0));
    assert_eq!(c, v(0, 0, SCALE));
    assert_eq!(v(3 * SCALE, 4 * SCALE, 0).length(), 5 * SCALE);
}

#[test]
fn near_zero_only_accepts_exact_zero() {
    assert!(near_zero(&v(0, 0, 0)));
    assert!(!near_zero(&v(1, 0, 0)));
    assert!(!near_zero(&v(0, -1, 0)));
}

#[test]
fn ray_at_zero_and_one() {
    let r = Ray::new(v(SCALE, 2 * SCALE, 3 * SCALE), v(4 * SCALE, 5 * SCALE, 6 * SCALE));
    assert_eq!(r.at(0), *r.origin());
    assert_eq!(r.at(SCALE), v(5 * SCALE, 7 * SCALE, 9 * SCALE));
}

fn gray() -> Material {
    Material::Lambertian { albedo: v(HALF, HALF, HALF) }
}

#[test]
fn sphere_hit_head_on() {
    let s = Sphere::new(v(0, 0, -SCALE), HALF, gray());
    let r = Ray::new(v(0, 0, 0), v(0, 0, -SCALE));
    let h = s.hit(&r, 100, i64::MAX).expect("the ray points at the sphere");
    assert_eq!(h.t, HALF);
    assert_eq!(h.normal, v(0, 0, SCALE));
    assert!(h.front_face);
    assert_eq!(h.p, v(0, 0, -HALF));
}

#[test]
fn sphere_missed_sideways() {
    let s = Sphere::new(v(0, 0, -SCALE), HALF, gray());
    let r = Ray::new(v(0, 0, 0), v(SCALE, 0, 0));
    assert!(s.hit(&r, 100, i64::MAX).is_none());
}

#[test]
fn aggregate_reports_closest_of_overlapping_hits() {
    let mut world = HittableList::new();
    world.add(Sphere::new(v(0, 0, -2 * SCALE), HALF, gray()));
    world.add(Sphere::new(v(0, 0, -SCALE), HALF, gray()));
    let r = Ray::new(v(0, 0, 0), v(0, 0, -SCALE));
    let h = world.hit(&r, 100, i64::MAX).expect("both spheres lie on the ray");
    assert_eq!(h.t, HALF);

    // same scene with the members in the other order
    let mut world2 = HittableList::new();
    world2.add(Sphere::new(v(0, 0, -SCALE), HALF, gray()));
    world2.add(Sphere::new(v(0, 0, -2 * SCALE), HALF, gray()));
    let h2 = world2.hit(&r, 100, i64::MAX).expect("both spheres lie on the ray");
    assert_eq!(h2.t, HALF);
}

#[test]
fn metal_reflection_preserves_incidence_angle() {
    let n = v(0, SCALE, 0);
    let incoming = v(SCALE, -SCALE, 0);
    let uv = incoming.unit();
    let reflected = reflect(&uv, &n);
    assert_eq!(reflected.dot(&n), uv.neg().dot(&n));
    assert!(reflected.dot(&n) > 0);
}

#[test]
fn metal_absorbs_reflection_below_surface() {
    let metal = Material::Metal { albedo: v(SCALE, SCALE, SCALE), fuzz: 0 };
    let s = Sphere::new(v(0, 0, -SCALE), HALF, metal);
    let r = Ray::new(v(0, 0, 0), v(0, 0, -SCALE));
    let h = s.hit(&r, 100, i64::MAX).unwrap();
    // force a record whose normal points along the incoming ray: the
    // perturbed reflection would leave through the surface
    let mut bad = h;
    bad.normal = v(0, 0, -SCALE);
    let mut rng = RngSource::from_stream(vec![0, 0, 0]);
    assert!(scatter(&metal, &r, &bad, &mut rng).is_none());
    // with the true normal the zero-fuzz metal scatters
    let mut rng2 = RngSource::from_stream(vec![0, 0, 0]);
    assert!(scatter(&metal, &r, &h, &mut rng2).is_some());
}

#[test]
fn schlick_at_normal_incidence_equals_r0() {
    // glass entered from the front: ratio = 1 / 1.5
    let ratio = fx_div(SCALE, 1_500_000);
    assert_eq!(ratio, 666_666);
    // (1 - ratio)^2 / (1 + ratio)^2 in fixed point
    assert_eq!(schlick_reflectance(SCALE, ratio), 40_000);
}

#[test]
fn total_internal_reflection_forces_reflection() {
    let glass = Material::Dielectric { refractive_index: 1_500_000 };
    let s = Sphere::new(v(0, 0, -SCALE), HALF, glass);
    let r = Ray::new(v(0, 0, 0), v(0, 0, -SCALE));
    let h = s.hit(&r, 100, i64::MAX).unwrap();
    // leaving the glass at a grazing angle: back face, ratio 1.5
    let mut grazing = h;
    grazing.front_face = false;
    grazing.normal = v(0, SCALE, 0);
    let incoming = Ray::new(v(0, 0, 0), v(SCALE, -1_000, 0));
    let mut rng = RngSource::from_stream(vec![0]);
    let (att, scattered) = scatter(&glass, &incoming, &grazing, &mut rng).unwrap();
    assert_eq!(att, v(SCALE, SCALE, SCALE));
    let expected = reflect(&incoming.direction().unit(), &grazing.normal);
    assert_eq!(*scattered.direction(), expected);
}

#[test]
fn color_with_exhausted_depth_is_black() {
    let mut world = HittableList::new();
    world.add(Sphere::new(v(0, 0, -SCALE), HALF, gray()));
    let r = Ray::new(v(0, 0, 0), v(0, 0, -SCALE));
    let mut rng = RngSource::from_entropy();
    assert_eq!(r.color(&world, 0, &mut rng), v(0, 0, 0));
}

#[test]
fn background_gradient_extremes() {
    let world = HittableList::new();
    let mut rng = RngSource::from_entropy();
    let up = Ray::new(v(0, 0, 0), v(0, SCALE, 0));
    assert_eq!(up.color(&world, 5, &mut rng), v(HALF, 700_000, SCALE));
    let down = Ray::new(v(0, 0, 0), v(0, -SCALE, 0));
    assert_eq!(down.color(&world, 5, &mut rng), v(SCALE, SCALE, SCALE));
}

#[test]
fn color_is_reproducible_under_a_fixed_draw_stream() {
    let mut world = HittableList::new();
    world.add(Sphere::new(v(0, -100_500_000, -SCALE), 100 * SCALE, gray()));
    world.add(Sphere::new(v(0, 0, -SCALE), HALF, gray()));
    let r = Ray::new(v(0, 0, 0), v(0, 0, -SCALE));
    let draws: Vec<u64> = vec![7, 123_456_789, 42, 999_999, 31_337, 5, 88, 1_000_003];
    let mut rng_a = RngSource::from_stream(draws.clone());
    let mut rng_b = RngSource::from_stream(draws);
    let a = r.color(&world, 10, &mut rng_a);
    let b = r.color(&world, 10, &mut rng_b);
    assert_eq!(a, b);
    assert_eq!(rng_a.index, rng_b.index);
}

#[test]
fn samplers_stay_inside_their_bounds() {
    let mut rng = RngSource::from_entropy();
    for _ in 0..32 {
        let x = random_range(-5 * SCALE, 5 * SCALE, &mut rng);
        assert!(-5 * SCALE <= x && x <= 5 * SCALE);
        let d = random_in_unit_disk(&mut rng);
        assert!(d.length_squared() < SCALE);
        assert_eq!(d.z, 0);
        let p = random_in_unit_sphere(&mut rng);
        assert!(p.length_squared() < SCALE);
        let u = random_unit_vector(&mut rng);
        assert!(u.length() > 0);
    }
}

#[test]
fn random_range_remaps_stream_draws_exactly() {
    // a draw of one half maps the span [0, 2] onto its midpoint
    let mut rng = RngSource::from_stream(vec![500_000]);
    assert_eq!(random_range(0, 2 * SCALE, &mut rng), SCALE);
    // the stream cycles: the same draw comes back
    assert_eq!(random_range(-SCALE, SCALE, &mut rng), 0);
}

#[test]
fn background_clamps_coarse_directions() {
    // a direction so short that normalization overshoots one still
    // yields a color inside the white-to-sky gamut: the clamped unit y
    // saturates the gradient at the sky color
    let world = HittableList::new();
    let mut rng = RngSource::from_entropy();
    let coarse = Ray::new(v(0, 0, 0), v(0, 1_500, 0));
    let c = coarse.color(&world, 5, &mut rng);
    assert_eq!(c, v(HALF, 700_000, SCALE));
    assert!(HALF <= c.x && c.x <= SCALE);
    assert!(700_000 <= c.y && c.y <= SCALE);
    assert_eq!(c.z, SCALE);
}

#[test]
fn unit_vector_magnitude_stays_near_one() {
    let mut rng = RngSource::from_entropy();
    for _ in 0..64 {
        let u = random_unit_vector(&mut rng);
        let drift = (u.length_squared() - SCALE).abs();
        assert!(drift <= 2_000);
    }
}

#[test]
fn hemisphere_sample_stays_on_the_normal_side() {
    let n = v(0, SCALE, 0);
    let mut rng = RngSource::from_entropy();
    for _ in 0..32 {
        let p = raytracer::math::random_in_hemisphere(&n, &mut rng);
        assert!(p.dot(&n) >= 0);
        assert!(p.length_squared() < SCALE);
    }
}

#[test]
fn render_is_reproducible_under_a_fixed_draw_stream() {
    let mut world = HittableList::new();
    world.add(Sphere::new(v(0, 0, -SCALE), HALF, gray()));
    let camera = Camera::new(
        v(0, 0, 0),
        v(0, 0, -SCALE),
        v(0, SCALE, 0),
        SCALE,
        1_777_777,
        0,
        SCALE,
    );
    let draws: Vec<u64> = vec![11, 222_333, 987_654_321, 42, 7, 1_000_000, 31_337];
    let mut rng_a = RngSource::from_stream(draws.clone());
    let mut rng_b = RngSource::from_stream(draws);
    let a = render(&world, &camera, 4, 3, 2, 3, &mut rng_a);
    let b = render(&world, &camera, 4, 3, 2, 3, &mut rng_b);
    assert_eq!(a, b);
    assert_eq!(rng_a.index, rng_b.index);
}

#[test]
fn quantize_channel_exact_values() {
    // a full-intensity channel saturates just below 256
    assert_eq!(quantize_channel(SCALE, 1), 255);
    // 0.25 averages to 0.25, gamma-corrects to 0.5, scales to 128
    assert_eq!(quantize_channel(250_000, 1), 128);
    // negative overshoot clamps to black
    assert_eq!(quantize_channel(-3 * SCALE, 1), 0);
    // averaging over four samples
    assert_eq!(quantize_channel(SCALE, 4), 128);
}

#[test]
fn render_produces_full_raster_in_byte_range() {
    let mut world = HittableList::new();
    world.add(Sphere::new(v(0, -100_500_000, -SCALE), 100 * SCALE, gray()));
    world.add(Sphere::new(v(0, 0, -SCALE), HALF, Material::Lambertian {
        albedo: v(100_000, 200_000, HALF),
    }));
    let camera = Camera::new(
        v(0, 0, 0),
        v(0, 0, -SCALE),
        v(0, SCALE, 0),
        SCALE,
        1_777_777,
        0,
        SCALE,
    );
    let mut rng = RngSource::from_entropy();
    let pixels = render(&world, &camera, 8, 6, 2, 5, &mut rng);
    assert_eq!(pixels.len(), 48);
    for (r, g, b) in pixels {
        assert!(r <= 255 && g <= 255 && b <= 255);
    }
}

#[test]
fn camera_with_closed_aperture_is_deterministic() {
    let camera = Camera::new(
        v(0, 0, 0),
        v(0, 0, -SCALE),
        v(0, SCALE, 0),
        SCALE,
        1_777_777,
        0,
        SCALE,
    );
    let mut rng_a = RngSource::from_entropy();
    let mut rng_b = RngSource::from_entropy();
    let a = camera.get_ray(250_000, 750_000, &mut rng_a);
    let b = camera.get_ray(250_000, 750_000, &mut rng_b);
    assert_eq!(*a.origin(), *b.origin());
    assert_eq!(*a.direction(), *b.direction());
    assert_eq!(*a.origin(), v(0, 0, 0));
}
