use raytracer::image::{Color, Image};
use raytracer::light::{Light, PointSource};
use raytracer::scalar::Scalar;
use raytracer::vec3::Vec3;

fn s(x: f64) -> Scalar {
    Scalar::from_bits(x.to_bits())
}

fn samples() -> Vec<f64> {
    vec![
        0.0,
        -0.0,
        5e-324,
        -5e-324,
        f64::MIN_POSITIVE,
        -f64::MIN_POSITIVE,
        0.1,
        0.5,
        1.0,
        -1.0,
        1.0000000000000002,
        2.0,
        4.0,
        -4.0,
        8.0,
        1e300,
        -1e300,
        f64::MAX,
        f64::MIN,
        f64::INFINITY,
        f64::NEG_INFINITY,
        f64::NAN,
        -f64::NAN,
        f64::from_bits(0x7ff0_0000_0000_0001),
        f64::from_bits(0xfff0_0000_0000_0001),
    ]
}

#[test]
fn lt_orders_as_the_hardware_does() {
    for a in samples() {
        for b in samples() {
            assert_eq!(s(a).lt(s(b)), a < b, "{:?} < {:?}", a, b);
            assert_eq!(s(a).gt(s(b)), a > b, "{:?} > {:?}", a, b);
        }
    }
}

#[test]
fn eq_compares_as_the_hardware_does() {
    for a in samples() {
        for b in samples() {
            assert_eq!(s(a) == s(b), a == b, "{:?} == {:?}", a, b);
        }
    }
}

#[test]
fn signs_and_nans() {
    for a in samples() {
        assert_eq!(s(a).is_positive(), a > 0.0, "{:?}", a);
        assert_eq!(s(a).is_negative(), a < 0.0, "{:?}", a);
        assert_eq!(s(a).is_nan(), a.is_nan(), "{:?}", a);
        assert_eq!(s(a).is_finite(), a.is_finite(), "{:?}", a);
        assert_eq!(s(a).neg().to_bits(), (-a).to_bits(), "{:?}", a);
    }
}

#[test]
fn named_values() {
    assert_eq!(Scalar::zero().to_bits(), 0.0f64.to_bits());
    assert_eq!(Scalar::one().to_bits(), 1.0f64.to_bits());
    assert_eq!(Scalar::max().to_bits(), f64::MAX.to_bits());
    assert_eq!(raytracer::geometry::MINUS_ONE_BITS, (-1.0f64).to_bits());
    assert_eq!(raytracer::material::EIGHT_BITS, 8.0f64.to_bits());
    assert_eq!(raytracer::scalar::INFINITY_BITS, f64::INFINITY.to_bits());
}

#[test]
fn vectors_compare_component_by_component() {
    let a = Vec3::new(s(1.0), s(0.0), s(-2.0));
    assert!(a == Vec3::new(s(1.0), s(-0.0), s(-2.0)));
    assert!(a != Vec3::new(s(1.0), s(0.0), s(2.0)));
    let n = Vec3::new(s(f64::NAN), s(0.0), s(0.0));
    assert!(n != n);
    assert!(Vec3::zero() == Vec3::new(s(0.0), s(0.0), s(0.0)));
}

#[test]
fn vectors_negate_component_by_component() {
    let a = Vec3::new(s(1.0), s(0.0), s(-2.0));
    let b = a.neg();
    assert_eq!(b.x.to_bits(), (-1.0f64).to_bits());
    assert_eq!(b.y.to_bits(), (-0.0f64).to_bits());
    assert_eq!(b.z.to_bits(), 2.0f64.to_bits());
    assert_eq!(b.neg(), a);
}

#[test]
fn refract_gives_zero_on_total_internal_reflection() {
    let bent = Vec3::new(s(0.5), s(-0.5), s(0.25));
    assert_eq!(Vec3::refract(s(-0.125), bent), Vec3::zero());
    assert_eq!(Vec3::refract(s(-0.125), bent).x.to_bits(), 0);
    assert_eq!(Vec3::refract(s(0.0), bent), bent);
    assert_eq!(Vec3::refract(s(-0.0), bent), bent);
    assert_eq!(Vec3::refract(s(0.75), bent), bent);
}

#[test]
fn samples_outside_the_unit_ball_are_drawn_again() {
    assert!(Vec3::outside_unit(s(1.0000000000000002)));
    assert!(Vec3::outside_unit(s(3.0)));
    assert!(!Vec3::outside_unit(s(1.0)));
    assert!(!Vec3::outside_unit(s(0.25)));
    assert!(!Vec3::outside_unit(s(0.0)));
}

#[test]
fn point_source_hands_out_its_fields() {
    let position = Vec3::new(s(2.0), s(2.0), s(-2.0));
    let color = Color::new(s(1.0), s(0.5), s(0.25));
    let source = PointSource::new(position, color, s(5.0));
    assert_eq!(source.sample(), position);
    assert_eq!(source.color().green.to_bits(), 0.5f64.to_bits());
    assert_eq!(source.intensity.to_bits(), 5.0f64.to_bits());
    let light = Light::Point(source);
    assert_eq!(light.sample(), position);
    assert_eq!(light.color().blue.to_bits(), 0.25f64.to_bits());
}

#[test]
fn black_is_zero_in_every_channel() {
    let black = Color::black();
    assert_eq!(black.red.to_bits(), 0);
    assert_eq!(black.green.to_bits(), 0);
    assert_eq!(black.blue.to_bits(), 0);
}

#[test]
fn image_starts_red_and_keeps_what_is_written() {
    let mut image = Image::new(3, 2);
    assert_eq!(image.width(), 3);
    assert_eq!(image.height(), 2);
    for y in 0..2 {
        for x in 0..3 {
            let c = image.pixel(x, y);
            assert_eq!(c.red.to_bits(), 1.0f64.to_bits());
            assert_eq!(c.green.to_bits(), 0);
            assert_eq!(c.blue.to_bits(), 0);
        }
    }
    image.set_pixel(2, 1, Color::new(s(0.25), s(0.5), s(0.75)));
    image.set_pixel(0, 1, Color::black());
    assert_eq!(image.pixel(2, 1).blue.to_bits(), 0.75f64.to_bits());
    assert_eq!(image.pixel(0, 1).red.to_bits(), 0);
    assert_eq!(image.pixel(1, 1).red.to_bits(), 1.0f64.to_bits());
    assert_eq!(image.pixel(2, 0).red.to_bits(), 1.0f64.to_bits());
    let empty = Image::new(0, 7);
    assert_eq!(empty.width(), 0);
    assert_eq!(empty.height(), 7);
}

#[test]
fn to_u8_casts_as_the_hardware_does() {
    for a in samples() {
        assert_eq!(s(a).to_u8(), a as u8, "{:?}", a);
    }
    let more = [
        0.999999999999,
        0.9999999999999999,
        1.5,
        1.9999999999999998,
        2.5,
        127.5,
        128.0,
        200.25,
        254.0,
        254.99999999999997,
        255.0,
        255.5,
        256.0,
        257.0,
        511.0,
        1e10,
        -0.5,
        -1.5,
        -255.0,
        -1e10,
    ];
    for a in more {
        assert_eq!(s(a).to_u8(), a as u8, "{:?}", a);
    }
    let mut k = 0.0f64;
    while k < 300.0 {
        assert_eq!(s(k).to_u8(), k as u8, "{:?}", k);
        k += 0.123;
    }
    assert_eq!(s(200.25).to_u8(), 200);
    assert_eq!(s(f64::NAN).to_u8(), 0);
    assert_eq!(s(f64::INFINITY).to_u8(), 255);
}

#[test]
fn channels_become_bytes() {
    assert_eq!(Color::new(s(0.0), s(127.5), s(255.0)).to_bytes(), (0, 127, 255));
    assert_eq!(Color::new(s(-3.0), s(300.0), s(f64::NAN)).to_bytes(), (0, 255, 0));
    assert_eq!(Color::new(s(0.2 * 255.0), s(0.8 * 255.0), s(1.0 * 255.0)).to_bytes(), (51, 204, 255));
}
