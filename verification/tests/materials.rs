use pathtracer::material::{Color, Lambertian, Material, Metal};
use pathtracer::scalar::Scalar;

fn s(x: f32) -> Scalar {
    Scalar::from_bits(x.to_bits())
}

fn f(x: Scalar) -> f32 {
    f32::from_bits(x.to_bits())
}

fn dot(a: [f32; 3], b: [f32; 3]) -> f32 {
    a[0] * b[0] + a[1] * b[1] + a[2] * b[2]
}

fn unit(v: [f32; 3]) -> [f32; 3] {
    let n = dot(v, v).sqrt();
    [v[0] / n, v[1] / n, v[2] / n]
}

fn reflect(v: [f32; 3], n: [f32; 3]) -> [f32; 3] {
    let k = 2.0 * dot(v, n);
    [v[0] - k * n[0], v[1] - k * n[1], v[2] - k * n[2]]
}

#[test]
fn lambertian_keeps_its_albedo() {
    let m = Lambertian::new(s(0.8), s(0.3), s(0.3));
    assert_eq!(m.albedo, Color { r: s(0.8), g: s(0.3), b: s(0.3) });
}

#[test]
fn metal_keeps_a_fuzz_between_zero_and_one() {
    for fuzz in [0.0f32, 0.3, 0.5, 1.0, -0.0, 1.0e-40] {
        let m = Metal::new(s(0.8), s(0.6), s(0.2), s(fuzz));
        assert_eq!(m.fuzz, s(fuzz));
        assert_eq!(m.albedo, Color { r: s(0.8), g: s(0.6), b: s(0.2) });
    }
}

#[test]
fn metal_replaces_a_fuzz_out_of_range_by_one() {
    for fuzz in [-0.1f32, -1.0, 1.5, 1.0000001, 100.0, f32::INFINITY, f32::NEG_INFINITY, -1.0e-40] {
        let m = Metal::new(s(0.8), s(0.8), s(0.8), s(fuzz));
        assert_eq!(f(m.fuzz), 1.0, "{:?}", fuzz);
    }
}

#[test]
fn metal_keeps_a_fuzz_that_is_no_number() {
    let m = Metal::new(s(0.8), s(0.8), s(0.8), s(f32::NAN));
    assert!(f(m.fuzz).is_nan());
}

#[test]
fn lambertian_always_sends_the_ray_on() {
    let m = Material::Lambertian(Lambertian::new(s(0.8), s(0.8), s(0.0)));
    for facing in [1.0f32, 0.0, -1.0, f32::NAN, -0.25] {
        let (continues, attenuation) = m.scatter(s(facing));
        assert!(continues);
        assert_eq!(attenuation, Color { r: s(0.8), g: s(0.8), b: s(0.0) });
    }
}

#[test]
fn metal_sends_the_ray_on_only_away_from_the_surface() {
    let m = Material::Metal(Metal::new(s(0.8), s(0.6), s(0.2), s(0.3)));
    let albedo = Color { r: s(0.8), g: s(0.6), b: s(0.2) };
    assert_eq!(m.scatter(s(0.5)), (true, albedo));
    assert_eq!(m.scatter(s(1.0e-40)), (true, albedo));
    assert_eq!(m.scatter(s(f32::INFINITY)), (true, albedo));
    assert_eq!(m.scatter(s(0.0)), (false, albedo));
    assert_eq!(m.scatter(s(-0.0)), (false, albedo));
    assert_eq!(m.scatter(s(-0.5)), (false, albedo));
    assert_eq!(m.scatter(s(f32::NAN)), (false, albedo));
}

#[test]
fn the_random_offset_enters_by_one_or_by_the_fuzz() {
    let diffuse = Material::Lambertian(Lambertian::new(s(0.8), s(0.3), s(0.3)));
    assert_eq!(f(diffuse.random_spread()), 1.0);
    let smooth = Material::Metal(Metal::new(s(0.8), s(0.6), s(0.2), s(0.0)));
    assert_eq!(f(smooth.random_spread()), 0.0);
    let rough = Material::Metal(Metal::new(s(0.8), s(0.8), s(0.8), s(0.3)));
    assert_eq!(f(rough.random_spread()), 0.3);
    let clamped = Material::Metal(Metal::new(s(0.8), s(0.8), s(0.8), s(7.0)));
    assert_eq!(f(clamped.random_spread()), 1.0);
}

#[test]
fn a_grazing_ray_pushed_below_the_surface_is_absorbed() {
    let metal = Material::Metal(Metal::new(s(0.8), s(0.8), s(0.8), s(1.0)));
    let normal = [0.0f32, 1.0, 0.0];
    let incoming = [1.0f32, -0.01, 0.0];
    let reflected = reflect(unit(incoming), normal);
    assert!(dot(reflected, normal) > 0.0);
    let offset = [0.0f32, -0.5, 0.0];
    let spread = f(metal.random_spread());
    let scattered = [
        reflected[0] + spread * offset[0],
        reflected[1] + spread * offset[1],
        reflected[2] + spread * offset[2],
    ];
    let facing = dot(scattered, normal);
    assert!(facing < 0.0);
    let (continues, attenuation) = metal.scatter(s(facing));
    assert!(!continues);
    assert_eq!(attenuation, Color { r: s(0.8), g: s(0.8), b: s(0.8) });
}

#[test]
fn a_mirror_sends_a_grazing_ray_on() {
    let metal = Material::Metal(Metal::new(s(0.8), s(0.8), s(0.8), s(0.0)));
    let normal = [0.0f32, 1.0, 0.0];
    let reflected = reflect(unit([1.0, -0.01, 0.0]), normal);
    let (continues, _) = metal.scatter(s(dot(reflected, normal)));
    assert!(continues);
}
