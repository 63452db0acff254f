use parallaxation2d::float::F32;
use parallaxation2d::vec2::{Vec2, Vec3};

fn f(x: f32) -> F32 {
    F32::from_bits(x.to_bits())
}

fn bits2(v: Vec2) -> (u32, u32) {
    (v.x.to_bits(), v.y.to_bits())
}

fn want2(x: f32, y: f32) -> (u32, u32) {
    (x.to_bits(), y.to_bits())
}

#[test]
fn named_vectors() {
    assert_eq!(bits2(Vec2::zero()), want2(0.0, 0.0));
    assert_eq!(bits2(Vec2::one()), want2(1.0, 1.0));
    assert_eq!(bits2(Vec2::unit_x()), want2(1.0, 0.0));
    assert_eq!(bits2(Vec2::unit_y()), want2(0.0, 1.0));
    assert_eq!(bits2(Vec2::splat(f(2.5))), want2(2.5, 2.5));
    assert_eq!(bits2(Vec2::new(f(1.5), f(-2.0))), want2(1.5, -2.0));
}

#[test]
fn arithmetic_is_by_component() {
    let a = Vec2::new(f(0.1), f(-7.0));
    let b = Vec2::new(f(0.2), f(3.0));
    assert_eq!(bits2(a + b), want2(0.1 + 0.2, -7.0 + 3.0));
    assert_eq!(bits2(a - b), want2(0.1 - 0.2, -7.0 - 3.0));
    assert_eq!(bits2(a * f(3.0)), want2(0.1 * 3.0, -7.0 * 3.0));
    assert_eq!(bits2(a / f(3.0)), want2(0.1 / 3.0, -7.0 / 3.0));
    assert_eq!(bits2(a / b), want2(0.1 / 0.2, -7.0 / 3.0));
}

#[test]
fn extend_and_truncate() {
    let v = Vec2::new(f(1.0), f(2.0)).extend(f(3.0));
    assert_eq!((v.x.to_bits(), v.y.to_bits(), v.z.to_bits()), (1.0f32.to_bits(), 2.0f32.to_bits(), 3.0f32.to_bits()));
    assert_eq!(bits2(v.truncate()), want2(1.0, 2.0));
    assert_eq!(Vec3::new(f(1.0), f(2.0), f(3.0)), v);
    assert!(Vec3::new(f(1.0), f(2.0), f(4.0)) != v);
}

#[test]
fn equality_is_by_value() {
    assert_eq!(Vec2::new(f(0.0), f(1.0)), Vec2::new(f(-0.0), f(1.0)));
    assert!(Vec2::new(f(f32::NAN), f(1.0)) != Vec2::new(f(f32::NAN), f(1.0)));
    assert!(Vec2::new(f(1.0), f(2.0)) != Vec2::new(f(1.0), f(3.0)));
}
