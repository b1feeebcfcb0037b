use tuot::aabb::{surrounding_box, Aabb};
use tuot::camera_effects::camera_distorter::exponential_easing;
use tuot::camera_effects::camera_distorter_opt::CameraDistorterOpt;
use tuot::camera_effects::CameraEffects;
use tuot::color::Color;
use tuot::disc::{Disc, Meeting};
use tuot::examples::Worlds;
use tuot::frame::Frame;
use tuot::hitable::{keep_nearer, HitRecord};
use tuot::material::{Dielectric, DiffuseLight, Lambertian, Material, Metal, Optics, Scatter};
use tuot::montecarlo_pimped::deflection_opt::{DeflectionForce, DeflectionOpt};
use tuot::montecarlo_pimped::material::{deflect_normal, get_deflected_color};
use tuot::montecarlo_pimped::renderer::get_camera_ray;
use tuot::montecarlo_pimped::tint_opt::{BandOp, TintOpt};
use tuot::ray::Ray;
use tuot::rect::{Plane, Rect};
use tuot::render_error::RenderError;
use tuot::scalar::Scalar;
use tuot::sdf::TracedSDF;
use tuot::sphere::{Roots, Sphere};
use tuot::texture::bitmap::Bitmap;
use tuot::texture::checker::{is_even, Checker};
use tuot::texture::noise::Noise;
use tuot::texture::perlin::{index, Perlin};
use tuot::texture::Texture;
use tuot::utils::{near_zero, refract};
use tuot::vec3::Vec3;

fn s(x: f32) -> Scalar {
    Scalar::from_bits(x.to_bits())
}

fn ray_of(origin: Vec3, direction: Vec3) -> Ray {
    Ray { origin, direction }
}

fn f(x: Scalar) -> f32 {
    f32::from_bits(x.to_bits())
}

fn v3(x: f32, y: f32, z: f32) -> Vec3 {
    Vec3::new(s(x), s(y), s(z))
}

fn arr(v: &Vec3) -> [f32; 3] {
    [f(v.x), f(v.y), f(v.z)]
}

fn col(r: f32, g: f32, b: f32) -> Color {
    Color::new(s(r), s(g), s(b))
}

fn rgb(c: &Color) -> [f32; 3] {
    [f(c.red), f(c.green), f(c.blue)]
}

fn travel(r: &Ray, c: Scalar, a: usize) -> Scalar {
    let o = arr(&r.origin);
    let d = arr(&r.direction);
    s((f(c) - o[a]) / d[a])
}

fn along(r: &Ray, t: Scalar, a: usize) -> Scalar {
    s(arr(&r.origin)[a] + f(t) * arr(&r.direction)[a])
}

fn grey() -> Material {
    Material::lambertian(Texture::constant_color(col(0.5, 0.5, 0.5)))
}

fn casts() -> Vec<f32> {
    vec![
        0.0, -0.0, 0.3, 0.999_999_9, 1.0, 1.5, 2.0, 2.999, 3.0, 127.5, 128.0, 254.999, 255.0, 255.5, 256.0,
        1000.25, 65535.9, 65536.0, 16_777_215.0, 16_777_216.0, 16_777_218.0, 4.0e9, 4_294_967_040.0,
        4_294_967_296.0, 1.0e12, 1.0e19, 1.8e19, 3.0e38, -1.0, -0.5, -300.0, 1.0e-40, f32::MIN_POSITIVE,
        f32::MAX, f32::INFINITY, f32::NEG_INFINITY, f32::NAN,
    ]
}

#[test]
fn casts_agree_with_the_hardware() {
    for &x in casts().iter() {
        assert_eq!(s(x).to_u8(), x as u8, "{} as u8", x);
        assert_eq!(s(x).to_u32(), x as u32, "{} as u32", x);
        assert_eq!(s(x).to_usize(), x as usize, "{} as usize", x);
        assert_eq!(s(x).to_usize(), x.floor() as usize, "floor of {} as usize", x);
    }
    let mut bits: u32 = 0x3f00_0000;
    while bits < 0x4400_0000 {
        let x = f32::from_bits(bits);
        assert_eq!(s(x).to_u8(), x as u8);
        bits += 0x1_0001;
    }
}

#[test]
fn colours_clamp_and_quantise() {
    assert_eq!(rgb(&col(1.5, -0.5, 0.25).clamp()), [1.0, 0.0, 0.25]);
    assert_eq!(rgb(&col(f32::NAN, f32::INFINITY, f32::NEG_INFINITY).clamp()), [1.0, 1.0, 0.0]);
    assert_eq!(rgb(&Color::white()), [1.0, 1.0, 1.0]);
    assert_eq!(rgb(&Color::black()), [0.0, 0.0, 0.0]);
    assert_eq!(Color::from_bits(0x3f80_0000, 0, 0x3f00_0000), col(1.0, 0.0, 0.5));
    assert!(col(0.0, -0.0, 1.0) == col(-0.0, 0.0, 1.0));
    assert!(col(0.0, 0.5, 1.0) != col(0.0, 0.5, 0.75));
    assert!(col(f32::NAN, 0.0, 0.0) != col(f32::NAN, 0.0, 0.0));
    assert_eq!(s(0.0).eq_value(s(-0.0)), 0.0f32 == -0.0f32);
    assert_eq!(s(f32::NAN).eq_value(s(f32::NAN)), f32::NAN == f32::NAN);
    assert!(s(1.5).eq_value(s(1.5)) && !s(1.5).eq_value(s(2.5)));
    let encode = |c: Scalar| -> Scalar { s(f(c).powf(1.0 / 2.2) * 255.0) };
    assert_eq!(col(1.0, 0.0, 0.5).to_rgba(&encode), [255, 0, (0.5f32.powf(1.0 / 2.2) * 255.0) as u8, 255]);
    assert_eq!(col(1.0, 0.0, 0.5).to_rgba(&encode), [255, 0, 186, 255]);
    assert_eq!(col(4.0, -1.0, f32::NAN).to_rgba(&encode), [255, 0, 0, 255]);
    let mix = |a: Color, b: Color, p: Scalar| -> Color {
        let p = f(p);
        col(
            f(a.red) * (1.0 - p) + f(b.red) * p,
            f(a.green) * (1.0 - p) + f(b.green) * p,
            f(a.blue) * (1.0 - p) + f(b.blue) * p,
        )
    };
    let a = col(0.0, 1.0, 0.5);
    let b = col(1.0, 0.0, 0.5);
    assert_eq!(rgb(&a.lerp(b, s(0.25), &mix)), [0.25, 0.75, 0.5]);
    assert_eq!(rgb(&a.lerp(b, s(7.0), &mix)), [1.0, 0.0, 0.5]);
    assert_eq!(rgb(&a.lerp(b, s(-7.0), &mix)), [0.0, 1.0, 0.5]);
}

#[test]
fn colours_come_back_from_bytes_within_a_step() {
    let encode = |c: Scalar| -> Scalar { s(f(c).powf(1.0 / 2.2) * 255.0) };
    let decode = |b: u8| -> f32 { (b as f32 / 255.0).powf(2.2) };
    let mut x = 0.0f32;
    while x <= 1.0 {
        let bytes = col(x, x, x).to_rgba(&encode);
        let back = decode(bytes[0]);
        let next = decode(bytes[0].saturating_add(1));
        assert!(back <= x + 1.0e-6 && (x < next + 1.0e-6 || bytes[0] == 255), "{} {} {}", back, x, next);
        x += 1.0 / 512.0;
    }
}

#[test]
fn slab_test_follows_the_ray() {
    let b = Aabb { min: v3(-1.0, -1.0, -6.0), max: v3(1.0, 1.0, -4.0) };
    let through = ray_of(v3(0.0, 0.0, 0.0), v3(0.0, 0.0, -1.0));
    assert!(b.hit(&through, &travel, s(0.001), s(f32::MAX)));
    assert!(!b.hit(&through, &travel, s(0.001), s(3.0)));
    assert!(!b.hit(&through, &travel, s(7.0), s(f32::MAX)));
    assert!(b.hit(&through, &travel, s(5.0), s(5.5)));
    let away = ray_of(v3(0.0, 0.0, 0.0), v3(0.0, 0.0, 1.0));
    assert!(!b.hit(&away, &travel, s(0.001), s(f32::MAX)));
    let beside = ray_of(v3(2.0, 0.0, 0.0), v3(0.0, 0.0, -1.0));
    assert!(!b.hit(&beside, &travel, s(0.001), s(f32::MAX)));
    let slanted = ray_of(v3(0.0, 0.0, 0.0), v3(0.1, 0.1, -0.98994946));
    assert!(b.hit(&slanted, &travel, s(0.001), s(f32::MAX)));
    let flat = Aabb { min: v3(-1.0, 0.0, -6.0), max: v3(1.0, 0.0, -4.0) };
    assert!(flat.hit(&through, &travel, s(0.001), s(f32::MAX)));
    let over = ray_of(v3(0.0, 0.5, 0.0), v3(0.0, 0.0, -1.0));
    assert!(!flat.hit(&over, &travel, s(0.001), s(f32::MAX)));
    let lost = |_r: &Ray, _c: Scalar, _a: usize| -> Scalar { s(f32::NAN) };
    assert!(b.hit(&through, &lost, s(0.001), s(f32::MAX)));
    assert!(!b.hit(&through, &lost, s(2.0), s(1.0)));
}

#[test]
fn surrounding_box_takes_the_least_and_the_greatest() {
    let a = Aabb { min: v3(0.0, -2.0, 3.0), max: v3(1.0, -1.0, 4.0) };
    let b = Aabb { min: v3(-5.0, 0.0, 3.5), max: v3(0.5, 9.0, 3.75) };
    let u = surrounding_box(&a, &b);
    assert_eq!(arr(&u.min), [-5.0, -2.0, 3.0]);
    assert_eq!(arr(&u.max), [1.0, 9.0, 4.0]);
    let w = surrounding_box(&b, &a);
    assert_eq!(arr(&w.min), arr(&u.min));
    assert_eq!(arr(&w.max), arr(&u.max));
    let same = surrounding_box(&a, &a);
    assert_eq!(same, a);
    let inf = Aabb { min: v3(f32::NEG_INFINITY, 0.0, 0.0), max: v3(f32::INFINITY, 0.0, 0.0) };
    let v = surrounding_box(&a, &inf);
    assert_eq!(arr(&v.min), [f32::NEG_INFINITY, -2.0, 0.0]);
    assert_eq!(arr(&v.max), [f32::INFINITY, 0.0, 4.0]);
}

#[test]
fn a_tangent_ray_hits_at_its_one_root() {
    let roots = Roots { discriminant: s(0.0), root_a: s(5.0), root_b: s(5.0) };
    assert_eq!(Sphere::root(&roots, s(0.001), s(f32::MAX)).map(f), Some(5.0));
    assert_eq!(Sphere::root(&roots, s(0.001), s(5.0)).map(f), Some(5.0));
    assert_eq!(Sphere::root(&roots, s(5.0), s(9.0)).map(f), Some(5.0));
    assert_eq!(Sphere::root(&roots, s(5.0), s(5.0)).map(f), Some(5.0));
    assert_eq!(Sphere::root(&roots, s(0.001), s(4.5)).map(f), None);
    assert_eq!(Sphere::root(&roots, s(5.5), s(9.0)).map(f), None);
    assert_eq!(Sphere::root(&roots, s(f32::NAN), s(9.0)).map(f), None);
    let minus = Roots { discriminant: s(-0.0), root_a: s(5.0), root_b: s(5.0) };
    assert_eq!(Sphere::root(&minus, s(0.001), s(f32::MAX)).map(f), Some(5.0));
    let two = Roots { discriminant: s(4.0), root_a: s(-1.0), root_b: s(3.0) };
    assert_eq!(Sphere::root(&two, s(0.001), s(f32::MAX)).map(f), Some(3.0));
    let near = Roots { discriminant: s(4.0), root_a: s(1.0), root_b: s(3.0) };
    assert_eq!(Sphere::root(&near, s(0.001), s(f32::MAX)).map(f), Some(1.0));
    let none = Roots { discriminant: s(-1.0), root_a: s(1.0), root_b: s(3.0) };
    assert_eq!(Sphere::root(&none, s(0.001), s(f32::MAX)).map(f), None);
    let nan = Roots { discriminant: s(f32::NAN), root_a: s(1.0), root_b: s(3.0) };
    assert_eq!(Sphere::root(&nan, s(0.001), s(f32::MAX)).map(f), None);
}

#[test]
fn a_sphere_of_negative_radius_has_the_box_of_the_positive_one() {
    let cube = |c: Vec3, h: Scalar| -> Aabb {
        let c = arr(&c);
        let h = f(h);
        Aabb { min: v3(c[0] - h, c[1] - h, c[2] - h), max: v3(c[0] + h, c[1] + h, c[2] + h) }
    };
    let inward = Sphere { position: v3(1.0, 2.0, 3.0), radius: s(-0.5), mat: grey() };
    let outward = Sphere { position: v3(1.0, 2.0, 3.0), radius: s(0.5), mat: grey() };
    assert_eq!(f(inward.bounding_radius()), 0.5);
    let a = inward.bounding_box(&cube).unwrap();
    let b = outward.bounding_box(&cube).unwrap();
    assert_eq!(a, b);
    assert_eq!(arr(&a.min), [0.5, 1.5, 2.5]);
    assert_eq!(arr(&a.max), [1.5, 2.5, 3.5]);
    let solve = |_s: &Sphere, _r: &Ray| -> Roots { Roots { discriminant: s(1.0), root_a: s(2.0), root_b: s(4.0) } };
    let surface = |sp: &Sphere, r: &Ray, t: Scalar| -> tuot::sphere::Surface {
        let p = [along(r, t, 0), along(r, t, 1), along(r, t, 2)];
        let c = arr(&sp.position);
        let rad = f(sp.radius);
        tuot::sphere::Surface {
            pos: Vec3::new(p[0], p[1], p[2]),
            normal: v3((f(p[0]) - c[0]) / rad, (f(p[1]) - c[1]) / rad, (f(p[2]) - c[2]) / rad),
            u: s(0.0),
            v: s(0.0),
        }
    };
    let r = ray_of(v3(1.0, 2.0, 5.5), v3(0.0, 0.0, -1.0));
    let out = outward.hit(&r, s(0.001), s(f32::MAX), &solve, &surface).unwrap();
    let inn = inward.hit(&r, s(0.001), s(f32::MAX), &solve, &surface).unwrap();
    assert_eq!(f(out.t), 2.0);
    assert_eq!(arr(&out.normal), [0.0, 0.0, 1.0]);
    assert_eq!(arr(&inn.normal), [0.0, 0.0, -1.0]);
}

#[test]
fn a_disc_is_hit_within_its_radius_only() {
    let disc = Disc { position: v3(0.0, 0.0, -2.0), normal: v3(0.0, 0.0, 1.0), radius: s(1.0), mat: grey() };
    let denominator = |d: &Disc, r: &Ray| -> Scalar {
        let n = arr(&d.normal);
        let v = arr(&r.direction);
        s(n[0] * v[0] + n[1] * v[1] + n[2] * v[2])
    };
    let meet = |d: &Disc, r: &Ray, denom: Scalar| -> Meeting {
        let o = arr(&r.origin);
        let c = arr(&d.position);
        let n = arr(&d.normal);
        let v = [c[0] - o[0], c[1] - o[1], c[2] - o[2]];
        let distance = (v[0] * n[0] + v[1] * n[1] + v[2] * n[2]) / f(denom);
        let p = [along(r, s(distance), 0), along(r, s(distance), 1), along(r, s(distance), 2)];
        let q = [f(p[0]) - c[0], f(p[1]) - c[1], f(p[2]) - c[2]];
        Meeting {
            distance: s(distance),
            pos: Vec3::new(p[0], p[1], p[2]),
            offset_squared: s(q[0] * q[0] + q[1] * q[1] + q[2] * q[2]),
            radius_squared: s(f(d.radius) * f(d.radius)),
        }
    };
    let straight = ray_of(v3(0.5, 0.0, 0.0), v3(0.0, 0.0, -1.0));
    let hit = disc.hit(&straight, s(0.001), s(f32::MAX), &denominator, &meet).unwrap();
    assert_eq!(f(hit.t), 2.0);
    assert_eq!(arr(&hit.pos), [0.5, 0.0, -2.0]);
    assert_eq!(arr(&hit.normal), [0.0, 0.0, 1.0]);
    assert_eq!((f(hit.u), f(hit.v)), (0.0, 0.0));
    let wide = ray_of(v3(1.5, 0.0, 0.0), v3(0.0, 0.0, -1.0));
    assert!(disc.hit(&wide, s(0.001), s(f32::MAX), &denominator, &meet).is_none());
    let edge = ray_of(v3(1.0, 0.0, 0.0), v3(0.0, 0.0, -1.0));
    assert!(disc.hit(&edge, s(0.001), s(f32::MAX), &denominator, &meet).is_none());
    let parallel = ray_of(v3(0.0, 0.0, 0.0), v3(1.0, 0.0, 0.0));
    assert!(disc.hit(&parallel, s(0.001), s(f32::MAX), &denominator, &meet).is_none());
    assert!(disc.hit(&straight, s(0.001), s(2.0), &denominator, &meet).is_none());
    assert!(disc.hit(&straight, s(2.0), s(9.0), &denominator, &meet).is_none());
    let cube = |c: Vec3, h: Scalar| -> Aabb {
        let c = arr(&c);
        let h = f(h);
        Aabb { min: v3(c[0] - h, c[1] - h, c[2] - h), max: v3(c[0] + h, c[1] + h, c[2] + h) }
    };
    let b = disc.bounding_box(&cube).unwrap();
    assert_eq!(arr(&b.min), [-1.0, -1.0, -3.0]);
    assert_eq!(arr(&b.max), [1.0, 1.0, -1.0]);
}

#[test]
fn a_rect_is_hit_between_its_bounds() {
    let fraction = |x: Scalar, lo: Scalar, hi: Scalar| -> Scalar { s((f(x) - f(lo)) / (f(hi) - f(lo))) };
    let pad = |k: Scalar| -> (Scalar, Scalar) { (s(f(k) - 0.0001), s(f(k) + 0.0001)) };
    let rect = Rect::new_xy((s(-1.0), s(3.0)), (s(0.0), s(2.0)), s(-2.0), grey());
    assert_eq!(rect.plane, Plane::XY);
    assert_eq!((rect.a_idx, rect.b_idx, rect.k_idx), (0, 1, 2));
    assert_eq!(arr(&rect.plane_normal), [0.0, 0.0, 1.0]);
    let r = ray_of(v3(0.0, 0.5, 0.0), v3(0.0, 0.0, -1.0));
    let hit = rect.hit(&r, s(0.001), s(f32::MAX), &travel, &along, &fraction).unwrap();
    assert_eq!(f(hit.t), 2.0);
    assert_eq!(arr(&hit.pos), [0.0, 0.5, -2.0]);
    assert_eq!(arr(&hit.normal), [0.0, 0.0, 1.0]);
    assert_eq!((f(hit.u), f(hit.v)), (0.25, 0.25));
    let beside = ray_of(v3(3.5, 0.5, 0.0), v3(0.0, 0.0, -1.0));
    assert!(rect.hit(&beside, s(0.001), s(f32::MAX), &travel, &along, &fraction).is_none());
    let above = ray_of(v3(0.0, 2.5, 0.0), v3(0.0, 0.0, -1.0));
    assert!(rect.hit(&above, s(0.001), s(f32::MAX), &travel, &along, &fraction).is_none());
    assert!(rect.hit(&r, s(0.001), s(1.5), &travel, &along, &fraction).is_none());
    assert!(rect.hit(&r, s(2.5), s(9.0), &travel, &along, &fraction).is_none());
    assert!(rect.hit(&r, s(2.0), s(2.0), &travel, &along, &fraction).is_some());
    let b = rect.bounding_box(&pad).unwrap();
    assert_eq!(arr(&b.min), [-1.0, 0.0, -2.0 - 0.0001]);
    assert_eq!(arr(&b.max), [3.0, 2.0, -2.0 + 0.0001]);
    let yz = Rect::new_yz((s(-1.0), s(3.0)), (s(0.0), s(2.0)), s(5.0), grey());
    assert_eq!((yz.a_idx, yz.b_idx, yz.k_idx), (1, 2, 0));
    assert_eq!(arr(&yz.plane_normal), [1.0, 0.0, 0.0]);
    let b = yz.bounding_box(&pad).unwrap();
    assert_eq!(arr(&b.min), [5.0 - 0.0001, -1.0, 0.0]);
    assert_eq!(arr(&b.max), [5.0 + 0.0001, 3.0, 2.0]);
    let xz = Rect::new_xz((s(-1.0), s(3.0)), (s(0.0), s(2.0)), s(5.0), grey());
    assert_eq!((xz.a_idx, xz.b_idx, xz.k_idx), (0, 2, 1));
    assert_eq!(arr(&xz.plane_normal), [0.0, 1.0, 0.0]);
    let b = xz.bounding_box(&pad).unwrap();
    assert_eq!(arr(&b.min), [-1.0, 5.0 - 0.0001, 0.0]);
    assert_eq!(arr(&b.max), [3.0, 5.0 + 0.0001, 2.0]);
    let down = ray_of(v3(1.0, 9.0, 1.0), v3(0.0, -1.0, 0.0));
    let hit = xz.hit(&down, s(0.001), s(f32::MAX), &travel, &along, &fraction).unwrap();
    assert_eq!(f(hit.t), 4.0);
    assert_eq!((f(hit.u), f(hit.v)), (0.5, 0.5));
}

#[test]
fn a_march_ends_at_the_surface_or_gives_up() {
    let field = TracedSDF::new(1.0f32, grey(), s(-2.0), v3(0.0, 0.0, -5.0));
    assert_eq!(*field.sdf(), 1.0);
    let distance = |radius: &f32, r: &Ray, t: Scalar| -> Scalar {
        let p = [f(along(r, t, 0)), f(along(r, t, 1)), f(along(r, t, 2)) + 5.0];
        s((p[0] * p[0] + p[1] * p[1] + p[2] * p[2]).sqrt() - radius)
    };
    let advance = |t: Scalar, d: Scalar| -> Scalar { s(f(t) + f(d)) };
    let back_off = |t: Scalar| -> Scalar { s(f(t) - 0.0001) };
    let surface = |_radius: &f32, r: &Ray, t: Scalar| -> (Vec3, Vec3) {
        let p = Vec3::new(along(r, t, 0), along(r, t, 1), along(r, t, 2));
        let n = [f(p.x), f(p.y), f(p.z) + 5.0];
        let l = (n[0] * n[0] + n[1] * n[1] + n[2] * n[2]).sqrt();
        (p, v3(n[0] / l, n[1] / l, n[2] / l))
    };
    let toward = ray_of(v3(0.0, 0.0, 0.0), v3(0.0, 0.0, -1.0));
    let hit = field.hit(&toward, s(0.001), s(f32::MAX), &distance, &advance, &back_off, &surface).unwrap();
    assert!((f(hit.t) - 4.0).abs() < 0.001, "{}", f(hit.t));
    assert!((f(hit.normal.z) - 1.0).abs() < 0.001);
    assert_eq!((f(hit.u), f(hit.v)), (0.0, 0.0));
    let away = ray_of(v3(0.0, 0.0, 0.0), v3(0.0, 0.0, 1.0));
    assert!(field.hit(&away, s(0.001), s(100.0), &distance, &advance, &back_off, &surface).is_none());
    assert!(field.hit(&toward, s(0.001), s(3.0), &distance, &advance, &back_off, &surface).is_none());
    let creep = |_radius: &f32, _r: &Ray, _t: Scalar| -> Scalar { s(0.01) };
    let steps = std::cell::Cell::new(0u32);
    let counted = |radius: &f32, r: &Ray, t: Scalar| -> Scalar {
        steps.set(steps.get() + 1);
        creep(radius, r, t)
    };
    assert!(field.hit(&toward, s(0.001), s(f32::MAX), &counted, &advance, &back_off, &surface).is_none());
    assert_eq!(steps.get(), 256);
    let lost = |_radius: &f32, _r: &Ray, _t: Scalar| -> Scalar { s(f32::NAN) };
    assert!(field.hit(&toward, s(0.001), s(f32::MAX), &lost, &advance, &back_off, &surface).is_none());
    let cube = |c: Vec3, h: Scalar| -> Aabb {
        let c = arr(&c);
        let h = f(h);
        Aabb { min: v3(c[0] - h, c[1] - h, c[2] - h), max: v3(c[0] + h, c[1] + h, c[2] + h) }
    };
    let b = field.bounding_box(&cube).unwrap();
    assert_eq!(arr(&b.min), [-2.0, -2.0, -7.0]);
    assert_eq!(arr(&b.max), [2.0, 2.0, -3.0]);
}

#[test]
fn a_medium_sends_out_one_ray() {
    let glass = Dielectric::new(s(1.5));
    let mat = Material::dielectric(s(1.5));
    let hit = HitRecord { t: s(1.0), pos: v3(0.0, 0.0, 0.0), normal: v3(0.0, 1.0, -0.0), mat: &mat, u: s(0.0), v: s(0.0) };
    let down = ray_of(v3(0.0, 1.0, 0.0), v3(0.0, -1.0, 0.0));
    let up = ray_of(v3(0.0, -1.0, 0.0), v3(0.0, 1.0, 0.0));
    let facing = |r: &Ray, h: &HitRecord| -> Scalar {
        s(f(r.direction.x) * f(h.normal.x) + f(r.direction.y) * f(h.normal.y) + f(r.direction.z) * f(h.normal.z))
    };
    let optics = |d: &Dielectric, facing: Scalar, leaving: bool, _r: &Ray| -> Optics {
        let ior = f(d.index_of_refraction);
        if leaving {
            Optics { ni_over_nt: s(ior), cosine: s(ior * f(facing)) }
        } else {
            Optics { ni_over_nt: s(1.0 / ior), cosine: s(-f(facing)) }
        }
    };
    let possible = |_v: Vec3, _n: Vec3, _r: Scalar| -> Scalar { s(1.0) };
    let never = |_v: Vec3, _n: Vec3, _r: Scalar| -> Scalar { s(0.0) };
    let bend = |_v: Vec3, n: Vec3, r: Scalar, _d: Scalar| -> Vec3 { Vec3::new(r, n.y, n.z) };
    let aim = |p: Vec3, d: Vec3| -> Ray { ray_of(p, d) };
    let mirror = |_r: &Ray, h: &HitRecord| -> Ray { ray_of(h.pos, v3(9.0, 9.0, 9.0)) };
    let high = || -> Scalar { s(0.9) };
    let low = || -> Scalar { s(0.05) };
    let schlick = |_c: Scalar, _i: Scalar| -> Scalar { s(0.1) };
    let entering = glass.bounce(&down, &hit, &facing, &optics, &possible, &bend, &aim, &high, &schlick, &mirror);
    assert!(entering.refracted);
    assert_eq!(arr(&entering.ray.direction), [1.0 / 1.5, 1.0, -0.0]);
    let leaving = glass.bounce(&up, &hit, &facing, &optics, &possible, &bend, &aim, &high, &schlick, &mirror);
    assert!(leaving.refracted);
    assert_eq!(leaving.ray.direction, v3(1.5, -1.0, 0.0));
    let reflected = glass.bounce(&down, &hit, &facing, &optics, &possible, &bend, &aim, &low, &schlick, &mirror);
    assert!(!reflected.refracted);
    assert_eq!(arr(&reflected.ray.direction), [9.0, 9.0, 9.0]);
    let equal = || -> Scalar { s(0.1) };
    assert!(!glass.bounce(&down, &hit, &facing, &optics, &possible, &bend, &aim, &equal, &schlick, &mirror).refracted);
    let whole = glass.bounce(&down, &hit, &facing, &optics, &never, &bend, &aim, &high, &schlick, &mirror);
    assert!(!whole.refracted);
    let unknown = |_c: Scalar, _i: Scalar| -> Scalar { s(f32::NAN) };
    assert!(!glass.bounce(&down, &hit, &facing, &optics, &possible, &bend, &aim, &high, &unknown, &mirror).refracted);
    let drawn = std::cell::Cell::new(0u32);
    let counted = || -> Scalar {
        drawn.set(drawn.get() + 1);
        s(0.9)
    };
    glass.bounce(&down, &hit, &facing, &optics, &never, &bend, &aim, &counted, &schlick, &mirror);
    assert_eq!(drawn.get(), 0);
    glass.bounce(&down, &hit, &facing, &optics, &possible, &bend, &aim, &counted, &schlick, &mirror);
    assert_eq!(drawn.get(), 1);
    let out = glass.scatter(&down, &hit, &facing, &optics, &possible, &bend, &aim, &high, &schlick, &mirror).unwrap();
    assert_eq!(rgb(&out.color), [1.0, 1.0, 1.0]);
    assert_eq!(out.ray, Some(entering.ray));
    let out = glass.scatter(&down, &hit, &facing, &optics, &possible, &bend, &aim, &low, &schlick, &mirror).unwrap();
    assert_eq!(rgb(&out.color), [1.0, 1.0, 1.0]);
    assert_eq!(out.ray, Some(reflected.ray));
    let tint = |d: &Vec3, c: &Color| -> Color { col(f(c.red) * 0.5, f(d.y), 0.25) };
    let out = glass.scattero(&down, &hit, &facing, &optics, &possible, &bend, &aim, &high, &schlick, &mirror, &tint).unwrap();
    assert_eq!(rgb(&out.color), [0.5, 1.0, 0.25]);
    assert_eq!(out.ray, Some(entering.ray));
    let out = glass.scattero(&down, &hit, &facing, &optics, &possible, &bend, &aim, &low, &schlick, &mirror, &tint).unwrap();
    assert_eq!(rgb(&out.color), [1.0, 1.0, 1.0]);
    assert_eq!(out.ray, Some(reflected.ray));
    let state = std::cell::Cell::new(12345u64);
    let random = || -> Scalar {
        state.set(state.get().wrapping_mul(6364136223846793005).wrapping_add(1442695040888963407));
        s(((state.get() >> 40) as f32) / ((1u64 << 24) as f32))
    };
    let third = |_c: Scalar, _i: Scalar| -> Scalar { s(0.3) };
    let trials = 20000;
    let mut bent = 0;
    for _ in 0..trials {
        if glass.bounce(&down, &hit, &facing, &optics, &possible, &bend, &aim, &random, &third, &mirror).refracted {
            bent += 1;
        }
    }
    let share = 1.0 - bent as f32 / trials as f32;
    assert!((share - 0.3).abs() < 0.02, "{}", share);
    let c = Dielectric::crossing(s(0.5), v3(0.0, 1.0, -0.0));
    assert!(c.leaving);
    assert_eq!(c.outward_normal, v3(-0.0, -1.0, 0.0));
    let c = Dielectric::crossing(s(-0.5), v3(0.0, 1.0, 0.0));
    assert!(!c.leaving);
    assert_eq!(c.outward_normal, v3(0.0, 1.0, 0.0));
    let c = Dielectric::crossing(s(0.0), v3(0.0, 1.0, 0.0));
    assert!(!c.leaving);
    assert_eq!(f(glass.index_of_refraction), 1.5);
}

#[test]
fn metal_and_diffuse_scatter_as_they_should() {
    let out = ray_of(v3(0.0, 0.0, 0.0), v3(0.0, 1.0, 0.0));
    let tint = col(0.8, 0.6, 0.2);
    assert_eq!(Metal::scatter(s(0.5), tint, out).map(|x| (x.color, x.ray)), Some((tint, Some(out))));
    assert!(Metal::scatter(s(0.0), tint, out).is_none());
    assert!(Metal::scatter(s(-0.5), tint, out).is_none());
    assert!(Metal::scatter(s(f32::NAN), tint, out).is_none());
    assert_eq!(Lambertian::scatter(tint, out).map(|x| (x.color, x.ray)), Some((tint, Some(out))));
    let normal = v3(0.0, 0.0, 1.0);
    assert_eq!(Lambertian::direction(normal, v3(0.3, 0.1, 0.9)), v3(0.3, 0.1, 0.9));
    assert_eq!(Lambertian::direction(normal, v3(1.0e-8, -1.0e-8, 0.0)), normal);
    assert_eq!(Lambertian::direction(normal, v3(1.0e-8, 0.5, 0.0)), v3(1.0e-8, 0.5, 0.0));
    assert!(near_zero(&v3(0.0, -0.0, 1.0e-9)));
    assert!(!near_zero(&v3(0.0, 0.0, f32::EPSILON)));
    assert!(!near_zero(&v3(f32::NAN, 0.0, 0.0)));
    assert!(DiffuseLight::new(Texture::constant_color(tint)).scatter().is_none());
    let m = Metal::new(Texture::constant_color(tint), s(0.25));
    assert_eq!(f(m.fuzz), 0.25);
    let _ = Lambertian::new(Texture::constant_color(tint));
}

fn record<'a>(mat: &'a Material, t: f32) -> HitRecord<'a> {
    HitRecord { t: s(t), pos: v3(0.0, 0.0, 0.0), normal: v3(0.0, 0.0, 1.0), mat, u: s(0.0), v: s(0.0) }
}

#[test]
fn materials_dispatch_by_kind() {
    let ray = ray_of(v3(0.0, 0.0, 0.0), v3(0.0, 0.0, -1.0));
    let mark = |r: f32| -> Option<Scatter> { Some(Scatter { color: col(r, 0.0, 0.0), ray: None }) };
    let l = |_m: &Lambertian, _r: &Ray, _h: &HitRecord| -> Option<Scatter> { mark(1.0) };
    let m = |_m: &Metal, _r: &Ray, _h: &HitRecord| -> Option<Scatter> { mark(2.0) };
    let d = |_m: &Dielectric, _r: &Ray, _h: &HitRecord| -> Option<Scatter> { mark(3.0) };
    let tint = Texture::constant_color(col(0.5, 0.25, 4.0));
    let kinds = [
        (Material::lambertian(tint.clone()), Some(1.0)),
        (Material::metal(tint.clone(), s(0.0)), Some(2.0)),
        (Material::dielectric(s(1.5)), Some(3.0)),
        (Material::diffuse_light(tint.clone()), None),
    ];
    let value = |t: &Texture, _u: Scalar, _v: Scalar, _p: Vec3| -> Color {
        match t {
            Texture::ConstantColor(c) => c.value(),
            _ => col(9.0, 9.0, 9.0),
        }
    };
    for (mat, want) in kinds.iter() {
        let h = record(mat, 1.0);
        assert_eq!(mat.scatter(&ray, &h, &l, &m, &d).map(|x| f(x.color.red)), *want);
        assert_eq!(mat.scattero(&ray, &h, &l, &m, &d).map(|x| f(x.color.red)), *want);
        let e = mat.emitted(s(0.0), s(0.0), v3(0.0, 0.0, 0.0), &value);
        if want.is_none() {
            assert_eq!(rgb(&e), [0.5, 0.25, 4.0]);
        } else {
            assert_eq!(rgb(&e), [0.0, 0.0, 0.0]);
        }
    }
}

#[test]
fn a_scan_keeps_the_first_of_equal_hits() {
    let a = grey();
    let b = Material::dielectric(s(1.5));
    let near = record(&a, 1.0);
    let far = record(&b, 2.0);
    let tie = record(&b, 1.0);
    let nan = record(&b, f32::NAN);
    assert_eq!(keep_nearer(None, None).map(|h| f(h.t)), None);
    assert_eq!(keep_nearer(None, Some(far)).map(|h| f(h.t)), Some(2.0));
    assert_eq!(keep_nearer(Some(far), None).map(|h| f(h.t)), Some(2.0));
    assert_eq!(keep_nearer(Some(far), Some(near)).map(|h| f(h.t)), Some(1.0));
    assert_eq!(keep_nearer(Some(near), Some(far)).map(|h| f(h.t)), Some(1.0));
    assert!(matches!(keep_nearer(Some(near), Some(tie)).unwrap().mat, Material::Lambertian(_)));
    assert!(matches!(keep_nearer(Some(tie), Some(near)).unwrap().mat, Material::Dielectric(_)));
    assert_eq!(keep_nearer(Some(near), Some(nan)).map(|h| f(h.t)), Some(1.0));
    assert!(f(keep_nearer(Some(nan), Some(near)).unwrap().t).is_nan());
}

#[test]
fn refraction_needs_a_discriminant_above_zero() {
    let bend = |v: Vec3, _n: Vec3, _r: Scalar, d: Scalar| -> Vec3 { Vec3::new(v.x, v.y, d) };
    let v = v3(1.0, 2.0, 3.0);
    let n = v3(0.0, 1.0, 0.0);
    let some = |_v: Vec3, _n: Vec3, r: Scalar| -> Scalar { s(1.0 - f(r)) };
    assert_eq!(refract(v, n, s(0.25), &some, &bend), Some(v3(1.0, 2.0, 0.75)));
    assert_eq!(refract(v, n, s(1.0), &some, &bend), None);
    assert_eq!(refract(v, n, s(2.0), &some, &bend), None);
    assert_eq!(refract(v, n, s(f32::NAN), &some, &bend), None);
}

#[test]
fn checker_fields_alternate() {
    assert!(is_even(0));
    assert!(!is_even(1));
    assert!(is_even(4_294_967_294));
    assert!(!is_even(u32::MAX));
    let even = col(1.0, 1.0, 1.0);
    let odd = col(0.0, 0.0, 0.0);
    let board = match Texture::checker(8, odd, even) {
        Texture::Checker(c) => c,
        _ => unreachable!(),
    };
    assert_eq!(board.squares, 8);
    assert_eq!(board.field(0, 0), even);
    assert_eq!(board.field(1, 1), even);
    assert_eq!(board.field(0, 1), odd);
    assert_eq!(board.field(3, 2), odd);
    assert_eq!(board.field(u32::MAX, u32::MAX), even);
    let scale = |c: Scalar, n: usize| -> Scalar { s(f(c) * n as f32) };
    assert_eq!(board.value(s(0.05), s(0.05), &scale), even);
    assert_eq!(board.value(s(0.13), s(0.05), &scale), odd);
    assert_eq!(board.value(s(0.13), s(0.20), &scale), even);
    assert_eq!(board.value(s(-3.0), s(0.20), &scale), odd);
    let _ = Checker { squares: 2, even, odd };
}

#[test]
fn textures_dispatch_by_kind() {
    let b = |_b: &Bitmap, _u: Scalar, _v: Scalar, _p: Vec3| -> Color { col(1.0, 0.0, 0.0) };
    let c = |_c: &Checker, _u: Scalar, _v: Scalar, _p: Vec3| -> Color { col(2.0, 0.0, 0.0) };
    let n = |_n: &Noise, _u: Scalar, _v: Scalar, _p: Vec3| -> Color { col(3.0, 0.0, 0.0) };
    let p = v3(0.0, 0.0, 0.0);
    let flat = Texture::constant_color(col(0.1, 0.2, 0.3));
    assert_eq!(rgb(&flat.value(s(0.0), s(0.0), p, &b, &c, &n)), [0.1, 0.2, 0.3]);
    let board = Texture::checker(2, col(0.0, 0.0, 0.0), col(1.0, 1.0, 1.0));
    assert_eq!(rgb(&board.value(s(0.0), s(0.0), p, &b, &c, &n)), [2.0, 0.0, 0.0]);
    let gradients: Vec<Vec3> = (0..256).map(|i| v3(i as f32, 0.0, 0.0)).collect();
    let noise = Texture::noise(s(4.0), gradients).unwrap();
    assert_eq!(rgb(&noise.value(s(0.0), s(0.0), p, &b, &c, &n)), [3.0, 0.0, 0.0]);
    assert!(Texture::noise(s(4.0), vec![v3(0.0, 0.0, 0.0)]).is_none());
    let image = Frame::from_raw(2, 2, vec![1, 2, 3, 4, 1, 2, 3, 4, 1, 2, 3, 4, 1, 2, 3, 4]).unwrap();
    let picture = Texture::bitmap(image);
    assert_eq!(rgb(&picture.value(s(0.0), s(0.0), p, &b, &c, &n)), [1.0, 0.0, 0.0]);
}

#[test]
fn bitmap_pixels_are_held_to_the_image() {
    let mut buffer = Frame::new(3, 2).unwrap();
    for y in 0..2u32 {
        for x in 0..3u32 {
            buffer.put_pixel(x, y, [x as u8, y as u8, 7, 255]);
        }
    }
    let bitmap = Bitmap { bitmap: buffer };
    assert_eq!(bitmap.texel(0, 0), [0, 0, 7, 255]);
    assert_eq!(bitmap.texel(2, 1), [2, 1, 7, 255]);
    assert_eq!(bitmap.texel(1, 0), [1, 0, 7, 255]);
    assert_eq!(bitmap.texel(3, 1), [2, 1, 7, 255]);
    assert_eq!(bitmap.texel(99, 99), [2, 1, 7, 255]);
    assert_eq!(bitmap.try_texel(1, 1), Some([1, 1, 7, 255]));
    let copy = bitmap.clone();
    assert_eq!(copy.try_texel(2, 0), Some([2, 0, 7, 255]));
    let empty = Bitmap { bitmap: Frame::new(0, 0).unwrap() };
    assert_eq!(empty.try_texel(0, 0), None);
    let column = |u: Scalar, w: u32| -> Scalar { s(f(u) * w as f32) };
    let row = |v: Scalar, h: u32| -> Scalar { s((1.0 - f(v)) * h as f32 - 0.001) };
    let decode = |p: [u8; 4]| -> Color { col(p[0] as f32, p[1] as f32, p[2] as f32) };
    assert_eq!(bitmap.value(s(0.5), s(0.75), &column, &row, &decode).map(|c| rgb(&c)), Some([1.0, 0.0, 7.0]));
    assert_eq!(bitmap.value(s(0.99), s(0.1), &column, &row, &decode).map(|c| rgb(&c)), Some([2.0, 1.0, 7.0]));
    assert_eq!(bitmap.value(s(1.0), s(-4.0), &column, &row, &decode).map(|c| rgb(&c)), Some([2.0, 1.0, 7.0]));
    assert_eq!(empty.value(s(0.5), s(0.5), &column, &row, &decode).map(|c| rgb(&c)), None);
}

#[test]
fn permutations_hold_each_number_once() {
    for _ in 0..10 {
        let perm = Perlin::generate_perm();
        assert_eq!(perm.len(), 256);
        let mut sorted = perm.clone();
        sorted.sort();
        assert_eq!(sorted, (0..256).collect::<Vec<usize>>());
    }
    let mut few = vec![5usize, 6, 7, 8];
    Perlin::permute(&mut few);
    few.sort();
    assert_eq!(few, vec![5, 6, 7, 8]);
    let mut none: Vec<usize> = Vec::new();
    Perlin::permute(&mut none);
    assert!(none.is_empty());
    let shuffled = (0..20).filter(|_| Perlin::generate_perm() != (0..256).collect::<Vec<usize>>()).count();
    assert!(shuffled > 0);
}

#[test]
fn a_shuffle_follows_its_draws() {
    let mut table = vec![10usize, 20, 30, 40];
    assert!(Perlin::permute_with(&mut table, &vec![0, 1, 0, 0]));
    assert_eq!(table, vec![30, 40, 20, 10]);
    let mut table = vec![10usize, 20, 30, 40];
    assert!(Perlin::permute_with(&mut table, &vec![3, 2, 1, 0]));
    assert_eq!(table, vec![10, 20, 30, 40]);
    assert!(Perlin::permute_with(&mut table, &vec![0, 0, 0, 0]));
    assert_eq!(table, vec![20, 30, 40, 10]);
    let mut table = vec![10usize, 20, 30, 40];
    assert!(!Perlin::permute_with(&mut table, &vec![4, 0, 0, 0]));
    assert_eq!(table, vec![10, 20, 30, 40]);
    assert!(!Perlin::permute_with(&mut table, &vec![0, 3, 0, 0]));
    assert!(!Perlin::permute_with(&mut table, &vec![0, 0, 0, 1]));
    assert!(!Perlin::permute_with(&mut table, &vec![0, 0, 0]));
    assert!(!Perlin::permute_with(&mut table, &vec![0, 0, 0, 0, 0]));
    assert_eq!(table, vec![10, 20, 30, 40]);
    let mut none: Vec<usize> = Vec::new();
    assert!(Perlin::permute_with(&mut none, &Vec::new()));
    assert!(none.is_empty());
    let mut one = vec![7usize];
    assert!(Perlin::permute_with(&mut one, &vec![0]));
    assert_eq!(one, vec![7]);
}

#[test]
fn lattice_gradients_are_looked_up_through_the_tables() {
    assert_eq!(index(0, 0, 0), 0);
    assert_eq!(index(0, 0, 1), 1);
    assert_eq!(index(0, 1, 0), 2);
    assert_eq!(index(1, 0, 0), 4);
    assert_eq!(index(1, 1, 1), 7);
    let gradients: Vec<Vec3> = (0..256).map(|i| v3(i as f32, 0.0, 0.0)).collect();
    assert!(Perlin::new(vec![v3(0.0, 0.0, 0.0); 255]).is_none());
    let perlin = Perlin::new(gradients).unwrap();
    for &(i, j, k) in [(0usize, 0usize, 0usize), (3, 250, 255), (255, 255, 255), (1000, 7, 300), (usize::MAX, 0, 1)].iter() {
        let c = perlin.lattice(i, j, k);
        assert_eq!(c.len(), 8);
        for di in 0..2usize {
            for dj in 0..2usize {
                for dk in 0..2usize {
                    let want = perlin.perm_x[i.wrapping_add(di) & 255]
                        ^ perlin.perm_y[j.wrapping_add(dj) & 255]
                        ^ perlin.perm_z[k.wrapping_add(dk) & 255];
                    assert_eq!(f(c[index(di, dj, dk)].x), want as f32);
                }
            }
        }
    }
    let corner = |c: &Vec<Vec3>, _p: &Vec3| -> Scalar { c[0].x };
    let at = perlin.noise(&v3(3.7, 250.2, 255.9), &corner);
    assert_eq!(f(at), (perlin.perm_x[3] ^ perlin.perm_y[250] ^ perlin.perm_z[255]) as f32);
    let below = perlin.noise(&v3(-3.7, -0.2, 0.5), &corner);
    assert_eq!(f(below), (perlin.perm_x[0] ^ perlin.perm_y[0] ^ perlin.perm_z[0]) as f32);
    let noise = Noise::new(s(2.0), (0..256).map(|i| v3(i as f32, 0.0, 0.0)).collect()).unwrap();
    assert_eq!(f(noise.scale), 2.0);
    assert_eq!(noise.perlin.ranvec.len(), 256);
}

#[test]
fn errors_carry_their_kind() {
    let e = RenderError::from(tobj::LoadError::ReadError);
    assert_eq!(e.kind, "tobj");
    assert_eq!(e.message, "read error");
    assert_eq!(e.to_string(), "RenderError { kind: tobj, message: read error }");
    let e = RenderError::from(std::io::Error::new(std::io::ErrorKind::NotFound, "no such scene"));
    assert_eq!(e.kind, "io");
    assert_eq!(e.message, "no such scene");
    let e = RenderError::from(image::ImageError::IoError(std::io::Error::new(
        std::io::ErrorKind::Other,
        "broken pipe",
    )));
    assert_eq!(e.kind, "image");
    assert_eq!(e.message, "broken pipe");
    let e = RenderError { kind: String::from("wtf"), message: String::from("Page not found") };
    assert_eq!(e.to_string(), "RenderError { kind: wtf, message: Page not found }");
    let e = RenderError { kind: String::new(), message: String::new() };
    assert_eq!(e.to_string(), "RenderError { kind: , message:  }");
}

#[test]
fn options_start_from_their_defaults() {
    let d = DeflectionOpt::default();
    assert_eq!((f(d.amplitude), f(d.randomness)), (0.9, 0.0));
    assert!(d.force == DeflectionForce::CameraRay);
    assert!(DeflectionForce::CameraRay != DeflectionForce::ObjectToCamera);
    let t = TintOpt::default();
    assert_eq!(rgb(&t.normal_color), [1.0, 0.5, 1.0]);
    assert_eq!(rgb(&t.background_color), [0.8196, 0.7568, 0.3490]);
    assert_eq!((f(t.mix), f(t.freq), f(t.amplitude)), (0.9, 45.0, 40.0));
    assert!(t.band_op == BandOp::Sin);
    assert!(BandOp::Fract != BandOp::Mod);
    let c = CameraDistorterOpt::default();
    assert_eq!((f(c.noise_scale), f(c.amplitude), f(c.easing)), (16.0, 0.4, 0.8));
    assert!(Worlds::Random != Worlds::SimpleAreaLight);
    assert!(matches!(Worlds::CornellBox, Worlds::CornellBox));
    let all = [
        Worlds::Random,
        Worlds::RandomGlass,
        Worlds::CornellBox,
        Worlds::ThreeSphere,
        Worlds::VerticalWall,
        Worlds::SdfSpheres,
        Worlds::SdfWall,
        Worlds::SimpleAreaLight,
    ];
    assert_eq!(all.len(), 8);
}

#[test]
fn easing_is_held_and_split_at_one_half() {
    let emphasis = |x: Scalar, a: Scalar| -> Scalar { s(f(x).powf(2.0 * f(a))) };
    let de_emphasis = |x: Scalar, a: Scalar| -> Scalar { s(f(x).powf(1.0 / (1.0 - 2.0 * (f(a) - 0.5)))) };
    let direct = |x: f32, a: f32| -> f32 {
        let epsilon: f32 = 0.00001;
        let min_param_a: f32 = 0.0 + epsilon;
        let max_param_a: f32 = 1.0 - epsilon;
        let a = min_param_a.max(max_param_a.min(a));
        if a < 0.5 {
            x.powf(2.0 * a)
        } else {
            x.powf(1.0 / (1.0 - 2.0 * (a - 0.5)))
        }
    };
    for &a in [-1.0f32, 0.0, 0.00001, 0.2, 0.4999, 0.5, 0.8, 0.99999, 1.0, 7.0].iter() {
        for &x in [0.0f32, 0.25, 0.5, 1.0].iter() {
            let got = f(exponential_easing(s(x), s(a), &emphasis, &de_emphasis));
            assert_eq!(got.to_bits(), direct(x, a).to_bits(), "{} {}", x, a);
        }
    }
    let seen = |_x: Scalar, a: Scalar| -> Scalar { a };
    assert_eq!(f(exponential_easing(s(0.5), s(-4.0), &seen, &seen)), 0.00001);
    assert_eq!(f(exponential_easing(s(0.5), s(4.0), &seen, &seen)), 1.0 - 0.00001);
    assert_eq!(f(exponential_easing(s(0.5), s(0.3), &seen, &seen)), 0.3);
}

#[test]
fn stylised_choices_follow_the_options() {
    let plain = |x: u32, v: u32| -> Ray { ray_of(v3(x as f32, v as f32, 0.0), v3(0.0, 0.0, -1.0)) };
    let bent = |x: u32, v: u32| -> Ray { ray_of(v3(x as f32, v as f32, 1.0), v3(0.0, 0.0, -1.0)) };
    assert_eq!(arr(&get_camera_ray(3, 4, &CameraEffects::NoEffects, &plain, &bent).origin), [3.0, 4.0, 0.0]);
    assert_eq!(arr(&get_camera_ray(3, 4, &CameraEffects::Distorter, &plain, &bent).origin), [3.0, 4.0, 1.0]);
    let sine = |_d: &Vec3, _o: &TintOpt| -> Color { col(1.0, 0.0, 0.0) };
    let fract = |_d: &Vec3, _o: &TintOpt| -> Color { col(2.0, 0.0, 0.0) };
    let modulo = |_d: &Vec3, _o: &TintOpt| -> Color { col(3.0, 0.0, 0.0) };
    let mix = |c: &Color, b: Color, _o: &TintOpt| -> Color { col(f(c.red) + f(b.red), 0.0, 0.0) };
    let mut opt = TintOpt::default();
    let d = v3(0.0, 0.0, 1.0);
    let c = col(10.0, 0.0, 0.0);
    assert_eq!(f(get_deflected_color(&d, &c, &opt, &sine, &fract, &modulo, &mix).red), 11.0);
    opt.band_op = BandOp::Fract;
    assert_eq!(f(get_deflected_color(&d, &c, &opt, &sine, &fract, &modulo, &mix).red), 12.0);
    opt.band_op = BandOp::Mod;
    assert_eq!(f(get_deflected_color(&d, &c, &opt, &sine, &fract, &modulo, &mix).red), 13.0);
    let along_ray = |p: &Vec3, n: &Vec3, c: &Vec3| -> Vec3 { v3(f(n.x) + f(p.x) - f(c.x), 0.0, 0.0) };
    let toward = |p: &Vec3, n: &Vec3, c: &Vec3| -> Vec3 { v3(f(n.x) + f(c.x) - f(p.x), 0.0, 0.0) };
    let bend = |_n: &Vec3, a: Vec3, _o: &DeflectionOpt| -> Vec3 { a };
    let mut opt = DeflectionOpt::default();
    let p = v3(1.0, 0.0, 0.0);
    let n = v3(10.0, 0.0, 0.0);
    let cam = v3(4.0, 0.0, 0.0);
    assert_eq!(f(deflect_normal(&p, &n, &cam, &opt, &along_ray, &toward, &bend).x), 7.0);
    opt.force = DeflectionForce::ObjectToCamera;
    assert_eq!(f(deflect_normal(&p, &n, &cam, &opt, &along_ray, &toward, &bend).x), 13.0);
}

#[test]
fn the_nearer_field_gives_the_distance() {
    let sphere = |p: Vec3| -> Scalar { s((f(p.x) * f(p.x) + f(p.y) * f(p.y) + f(p.z) * f(p.z)).sqrt() - 0.25) };
    let plane = |p: Vec3| -> Scalar { s(f(p.y) + 0.25) };
    assert_eq!(f(tuot::sdfa::map(v3(0.0, 1.0, 0.0), &sphere, &plane)), 0.75);
    assert_eq!(f(tuot::sdfa::map(v3(3.0, 0.0, 0.0), &sphere, &plane)), 0.25);
    assert_eq!(f(tuot::sdfa::map(v3(0.0, 0.0, 0.0), &sphere, &plane)), -0.25);
    let lost = |_p: Vec3| -> Scalar { s(f32::NAN) };
    assert_eq!(f(tuot::sdfa::map(v3(0.0, 1.0, 0.0), &lost, &plane)), 1.25);
    assert_eq!(f(tuot::sdfa::map(v3(0.0, 1.0, 0.0), &sphere, &lost)), 0.75);
}

#[test]
fn a_rect_can_be_turned_round() {
    let mut rect = Rect::new_xz((s(-1.0), s(1.0)), (s(-1.0), s(1.0)), s(0.0), grey());
    assert_eq!(arr(&rect.plane_normal), [0.0, 1.0, 0.0]);
    rect.flip_normals();
    assert_eq!(rect.plane_normal, v3(-0.0, -1.0, -0.0));
    rect.flip_normals();
    assert_eq!(rect.plane_normal, v3(0.0, 1.0, 0.0));
    let mut loose = Rect::new_xy((s(0.0), s(1.0)), (s(0.0), s(1.0)), s(0.0), grey());
    loose.plane_normal = v3(0.5, -2.0, 0.0);
    loose.flip_normals();
    assert_eq!(loose.plane_normal, v3(-0.5, 2.0, -0.0));
    assert_eq!(rgb(&tuot::setup::white()), [1.0, 1.0, 1.0]);
    assert_eq!(rgb(&tuot::setup::black()), [0.0, 0.0, 0.0]);
    assert_eq!(f32::from_bits(tuot::setup::SDF_DETAIL_SCALE_BITS), 2.0);
    assert_eq!(tuot::setup::FRACTAL_ITERATIONS, 12);
}

#[test]
fn frames_hold_what_is_put() {
    let mut frame = Frame::new(3, 2).unwrap();
    assert_eq!(frame.dimensions(), (3, 2));
    assert_eq!(frame.get_pixel(0, 0), Some([0, 0, 0, 0]));
    frame.put_pixel(2, 1, [1, 2, 3, 4]);
    assert!(frame.try_put_pixel(0, 1, [5, 6, 7, 8]));
    assert!(!frame.try_put_pixel(3, 1, [9, 9, 9, 9]));
    assert!(!frame.try_put_pixel(0, 2, [9, 9, 9, 9]));
    assert_eq!(frame.get_pixel(2, 1), Some([1, 2, 3, 4]));
    assert_eq!(frame.get_pixel(0, 1), Some([5, 6, 7, 8]));
    assert_eq!(frame.get_pixel(1, 1), Some([0, 0, 0, 0]));
    assert_eq!(frame.get_pixel(3, 0), None);
    assert_eq!(frame.get_pixel(0, 2), None);
    let raw = frame.into_raw();
    assert_eq!(raw.len(), 24);
    assert_eq!(&raw[12..16], &[5, 6, 7, 8]);
    assert_eq!(&raw[20..24], &[1, 2, 3, 4]);
    let empty = Frame::new(0, 5).unwrap();
    assert_eq!(empty.dimensions(), (0, 5));
    assert_eq!(empty.get_pixel(0, 0), None);
    let given = Frame::from_raw(2, 1, vec![1, 2, 3, 4, 5, 6, 7, 8]).unwrap();
    assert_eq!(given.dimensions(), (2, 1));
    assert_eq!(given.get_pixel(0, 0), Some([1, 2, 3, 4]));
    assert_eq!(given.get_pixel(1, 0), Some([5, 6, 7, 8]));
    let copy = given.clone();
    assert_eq!(copy.get_pixel(1, 0), Some([5, 6, 7, 8]));
    assert_eq!(copy.into_raw(), vec![1, 2, 3, 4, 5, 6, 7, 8]);
    assert!(Frame::from_raw(2, 1, vec![1, 2, 3, 4, 5, 6, 7]).is_none());
    assert!(Frame::from_raw(2, 1, vec![1, 2, 3, 4, 5, 6, 7, 8, 9]).is_none());
    assert!(Frame::from_raw(0, 0, Vec::new()).is_some());
    assert!(Frame::from_raw(u32::MAX, u32::MAX, Vec::new()).is_none());
    assert!(Frame::new(u32::MAX, u32::MAX).is_none());
}

#[test]
fn rays_and_vectors_hold_their_parts() {
    let unit = |d: Vec3| -> Vec3 {
        let l = (f(d.x) * f(d.x) + f(d.y) * f(d.y) + f(d.z) * f(d.z)).sqrt();
        v3(f(d.x) / l, f(d.y) / l, f(d.z) / l)
    };
    let r = Ray::new(v3(1.0, 2.0, 3.0), v3(0.0, 0.0, -4.0), &unit);
    assert_eq!(arr(&r.origin()), [1.0, 2.0, 3.0]);
    assert_eq!(arr(&r.direction()), [0.0, 0.0, -1.0]);
    let slanted = Ray::new(v3(0.0, 0.0, 0.0), v3(3.0, 0.0, 4.0), &unit);
    assert_eq!(arr(&slanted.direction()), [0.6, 0.0, 0.8]);
    let v = Vec3::from_bits(0x3f80_0000, 0xbf80_0000, 0);
    assert_eq!(arr(&v), [1.0, -1.0, 0.0]);
    assert_eq!((f(v.get(0)), f(v.get(1)), f(v.get(2))), (1.0, -1.0, 0.0));
    assert_eq!(v.neg(), v3(-1.0, 1.0, -0.0));
    let coords = tuot::renderer::frame_coords(3, 2);
    assert_eq!(coords, vec![(0, 0), (1, 0), (2, 0), (0, 1), (1, 1), (2, 1)]);
    assert!(tuot::renderer::frame_coords(0, 7).is_empty());
    let sample = |x: u32, v: u32| -> Color { col(x as f32, v as f32, 1.0) };
    let sum = |a: Color, b: Color| -> Color { col(f(a.red) + f(b.red), f(a.green) + f(b.green), f(a.blue) + f(b.blue)) };
    let mean = |a: Color, n: usize| -> Color { col(f(a.red) / n as f32, f(a.green) / n as f32, f(a.blue) / n as f32) };
    let (x, y, c) = tuot::renderer::sample_pixel(2, 1, 5, 4, &sample, &sum, &mean);
    assert_eq!((x, y), (2, 1));
    assert_eq!(rgb(&c), [2.0, 4.0, 1.0]);
}
