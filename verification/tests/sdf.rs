use sdfu::mathtypes::{Clamp, Dim2D, Dim3D, MaxMin, One, Zero};
use sdfu::SDF;
use std::ops::{Add, Div, Mul, Neg, Sub};
use tuot::material::Material;
use tuot::ray::Ray;
use tuot::scalar::Scalar;
use tuot::sdf::TracedSDF;
use tuot::texture::Texture;
use tuot::color::Color;
use tuot::vec3::Vec3;

#[derive(Clone, Copy, Debug, PartialEq)]
struct Point([f32; 3]);

#[derive(Clone, Copy, Debug, PartialEq)]
struct Flat([f32; 2]);

impl Point {
    const ZERO: Point = Point([0.0, 0.0, 0.0]);

    fn map(self, k: fn(f32) -> f32) -> Point {
        Point([k(self.0[0]), k(self.0[1]), k(self.0[2])])
    }

    fn zip(self, o: Point, k: fn(f32, f32) -> f32) -> Point {
        Point([k(self.0[0], o.0[0]), k(self.0[1], o.0[1]), k(self.0[2], o.0[2])])
    }
}

impl Flat {
    fn zip(self, o: Flat, k: fn(f32, f32) -> f32) -> Flat {
        Flat([k(self.0[0], o.0[0]), k(self.0[1], o.0[1])])
    }
}

impl Neg for Point {
    type Output = Point;
    fn neg(self) -> Point {
        self.map(|x| -x)
    }
}

impl Add for Point {
    type Output = Point;
    fn add(self, o: Point) -> Point {
        self.zip(o, |a, b| a + b)
    }
}

impl Sub for Point {
    type Output = Point;
    fn sub(self, o: Point) -> Point {
        self.zip(o, |a, b| a - b)
    }
}

impl Mul<f32> for Point {
    type Output = Point;
    fn mul(self, k: f32) -> Point {
        Point([self.0[0] * k, self.0[1] * k, self.0[2] * k])
    }
}

impl Div<f32> for Point {
    type Output = Point;
    fn div(self, k: f32) -> Point {
        Point([self.0[0] / k, self.0[1] / k, self.0[2] / k])
    }
}

impl MaxMin for Point {
    fn max(&self, o: Point) -> Point {
        self.zip(o, f32::max)
    }
    fn min(&self, o: Point) -> Point {
        self.zip(o, f32::min)
    }
}

impl Zero for Point {
    fn zero() -> Point {
        Point::ZERO
    }
}

impl One for Point {
    fn one() -> Point {
        Point([1.0, 1.0, 1.0])
    }
}

impl Clamp for Point {
    fn clamp(&self, low: Point, high: Point) -> Point {
        self.zip(low, f32::max).zip(high, f32::min)
    }
}

impl sdfu::mathtypes::Vec<f32> for Point {
    type Dimension = Dim3D;
    type Vec2 = Flat;
    type Vec3 = Point;
    fn dot(&self, o: Point) -> f32 {
        self.0[0] * o.0[0] + self.0[1] * o.0[1] + self.0[2] * o.0[2]
    }
    fn magnitude(&self) -> f32 {
        sdfu::mathtypes::Vec::dot(self, *self).sqrt()
    }
    fn abs(&self) -> Point {
        self.map(f32::abs)
    }
    fn normalized(&self) -> Point {
        *self / sdfu::mathtypes::Vec::magnitude(self)
    }
}

impl sdfu::mathtypes::Vec3<f32> for Point {
    fn new(x: f32, y: f32, z: f32) -> Point {
        Point([x, y, z])
    }
    fn x(&self) -> f32 {
        self.0[0]
    }
    fn y(&self) -> f32 {
        self.0[1]
    }
    fn z(&self) -> f32 {
        self.0[2]
    }
}

impl Neg for Flat {
    type Output = Flat;
    fn neg(self) -> Flat {
        Flat([-self.0[0], -self.0[1]])
    }
}

impl Add for Flat {
    type Output = Flat;
    fn add(self, o: Flat) -> Flat {
        self.zip(o, |a, b| a + b)
    }
}

impl Sub for Flat {
    type Output = Flat;
    fn sub(self, o: Flat) -> Flat {
        self.zip(o, |a, b| a - b)
    }
}

impl Mul<f32> for Flat {
    type Output = Flat;
    fn mul(self, k: f32) -> Flat {
        Flat([self.0[0] * k, self.0[1] * k])
    }
}

impl Div<f32> for Flat {
    type Output = Flat;
    fn div(self, k: f32) -> Flat {
        Flat([self.0[0] / k, self.0[1] / k])
    }
}

impl MaxMin for Flat {
    fn max(&self, o: Flat) -> Flat {
        self.zip(o, f32::max)
    }
    fn min(&self, o: Flat) -> Flat {
        self.zip(o, f32::min)
    }
}

impl Zero for Flat {
    fn zero() -> Flat {
        Flat([0.0, 0.0])
    }
}

impl One for Flat {
    fn one() -> Flat {
        Flat([1.0, 1.0])
    }
}

impl Clamp for Flat {
    fn clamp(&self, low: Flat, high: Flat) -> Flat {
        self.zip(low, f32::max).zip(high, f32::min)
    }
}

impl sdfu::mathtypes::Vec<f32> for Flat {
    type Dimension = Dim2D;
    type Vec2 = Flat;
    type Vec3 = Point;
    fn dot(&self, o: Flat) -> f32 {
        self.0[0] * o.0[0] + self.0[1] * o.0[1]
    }
    fn magnitude(&self) -> f32 {
        sdfu::mathtypes::Vec::dot(self, *self).sqrt()
    }
    fn abs(&self) -> Flat {
        Flat([self.0[0].abs(), self.0[1].abs()])
    }
    fn normalized(&self) -> Flat {
        *self / sdfu::mathtypes::Vec::magnitude(self)
    }
}

impl sdfu::mathtypes::Vec2<f32> for Flat {
    fn new(x: f32, y: f32) -> Flat {
        Flat([x, y])
    }
    fn x(&self) -> f32 {
        self.0[0]
    }
    fn y(&self) -> f32 {
        self.0[1]
    }
}

fn s(x: f32) -> Scalar {
    Scalar::from_bits(x.to_bits())
}

fn ray_of(origin: Vec3, direction: Vec3) -> Ray {
    Ray { origin, direction }
}

fn f(x: Scalar) -> f32 {
    f32::from_bits(x.to_bits())
}

fn at(r: &Ray, t: f32) -> Point {
    Point([
        f(r.origin.x) + t * f(r.direction.x),
        f(r.origin.y) + t * f(r.direction.y),
        f(r.origin.z) + t * f(r.direction.z),
    ])
}

#[test]
fn test_glam() {
    let sdf = sdfu::Sphere::new(1.0);
    let dist: f32 = sdf.dist(Point::ZERO);
    assert_eq!(dist, -1.0);
}

#[test]
fn a_field_of_sdfu_is_marched_to_its_surface() {
    let grey = Material::lambertian(Texture::constant_color(Color::new(s(0.5), s(0.5), s(0.5))));
    let ball = sdfu::Sphere::new(1.0f32).translate(Point([0.0, 0.0, -5.0]));
    let field = TracedSDF::new(ball, grey, s(1.0), Vec3::new(s(0.0), s(0.0), s(-5.0)));
    let r = ray_of(Vec3::new(s(0.0), s(0.0), s(0.0)), Vec3::new(s(0.0), s(0.0), s(-1.0)));
    let hit = field
        .hit(
            &r,
            s(0.001),
            s(f32::MAX),
            &|sdf, r: &Ray, t: Scalar| s(sdf.dist(at(r, f(t)))),
            &|t: Scalar, d: Scalar| s(f(t) + f(d)),
            &|t: Scalar| s(f(t) - 0.0001),
            &|sdf, r: &Ray, t: Scalar| {
                let p = at(r, f(t));
                let n = sdf.normals_fast(0.0001).normal_at(p);
                (Vec3::new(s(p.0[0]), s(p.0[1]), s(p.0[2])), Vec3::new(s(n.0[0]), s(n.0[1]), s(n.0[2])))
            },
        )
        .unwrap();
    assert!((f(hit.t) - 4.0).abs() < 0.001);
    assert!((f(hit.normal.z) - 1.0).abs() < 0.01);
}
