use image::{DynamicImage, Rgb, RgbImage, Rgba, RgbaImage};
use raytracer::scalar::Scalar;
use raytracer::texture::{sample, texel, texture_size};
use raytracer::types::V2;

fn s(x: f32) -> Scalar {
    Scalar::from_bits(x.to_bits())
}

fn at(u: f32, v: f32) -> V2 {
    V2::new(s(u), s(v))
}

/// An image whose pixel at (x, y) is (x, y, 10 x + y).
fn gradient(width: u32, height: u32) -> DynamicImage {
    let mut image = RgbImage::new(width, height);
    for y in 0..height {
        for x in 0..width {
            image.put_pixel(x, y, Rgb([x as u8, y as u8, (10 * x + y) as u8]));
        }
    }
    DynamicImage::ImageRgb8(image)
}

#[test]
fn digits_and_scale_give_the_value() {
    let values = [
        0.0f32,
        1.0,
        0.5,
        0.75,
        3.25,
        20.0,
        0.001,
        1.0e-40,
        f32::MIN_POSITIVE,
        f32::MAX,
        16_777_215.0,
        -2.5,
    ];
    for &x in values.iter() {
        let (digits, scale) = s(x).digits();
        assert!(digits < 1 << 24);
        let value = digits as f64 * 2.0f64.powi(scale);
        assert_eq!(value, x.abs() as f64, "{}", x);
        assert_eq!(s(x).is_negative(), x.is_sign_negative());
    }
    assert_eq!(s(1.0).digits(), (1 << 23, -23));
    assert_eq!(s(0.0).digits(), (0, -149));
    assert_eq!(s(f32::from_bits(1)).digits(), (1, -149));
}

#[test]
fn texel_of_plain_coordinates() {
    assert_eq!(texel(s(0.0), 10), 0);
    assert_eq!(texel(s(0.05), 10), 0);
    assert_eq!(texel(s(0.1), 10), 1);
    assert_eq!(texel(s(0.25), 4), 1);
    assert_eq!(texel(s(0.5), 4), 2);
    assert_eq!(texel(s(0.75), 4), 3);
    assert_eq!(texel(s(0.999), 4), 3);
    assert_eq!(texel(s(0.5), 1), 0);
    assert_eq!(texel(s(0.5), 0), 0);
    assert_eq!(texel(s(0.99999994), u32::MAX), 4_294_967_039);
}

#[test]
fn texel_wraps_above_one() {
    assert_eq!(texel(s(1.0), 4), 0);
    assert_eq!(texel(s(1.25), 4), 1);
    assert_eq!(texel(s(7.5), 4), 2);
    assert_eq!(texel(s(19.75), 8), 6);
    assert_eq!(texel(s(20.0), 8), 0);
    assert_eq!(texel(s(16_777_216.0), 8), 0);
    assert_eq!(texel(s(8_388_607.5), 8), 4);
    assert_eq!(texel(s(f32::MAX), 8), 0);
}

#[test]
fn texel_wraps_below_zero() {
    assert_eq!(texel(s(-0.0), 4), 0);
    assert_eq!(texel(s(-0.25), 4), 3);
    assert_eq!(texel(s(-0.75), 4), 1);
    assert_eq!(texel(s(-1.0), 4), 0);
    assert_eq!(texel(s(-1.25), 4), 3);
    assert_eq!(texel(s(-3.5), 10), 5);
    // Just below a whole number is just below the next one.
    assert_eq!(texel(s(-1.0e-30), 4), 3);
    assert_eq!(texel(s(-f32::from_bits(1)), 1000), 999);
    assert_eq!(texel(s(-f32::from_bits(1)), 1), 0);
    assert_eq!(texel(s(f32::from_bits(1)), 1000), 0);
    assert_eq!(texel(s(1.0e-30), u32::MAX), 0);
}

#[test]
fn texel_of_what_is_no_finite_number() {
    assert_eq!(texel(s(f32::NAN), 4), 0);
    assert_eq!(texel(s(f32::INFINITY), 4), 0);
    assert_eq!(texel(s(f32::NEG_INFINITY), 4), 0);
}

#[test]
fn texel_agrees_with_the_arithmetic() {
    let sizes = [1u32, 2, 3, 7, 256, 1000, 4096, 1 << 20];
    let mut x = -40.0f32;
    while x < 40.0 {
        for &size in sizes.iter() {
            let wide = x as f64;
            let expected = ((wide - wide.floor()) * size as f64).floor() as u32;
            let got = texel(s(x), size);
            assert_eq!(got, expected, "{} of {}", x, size);
            assert!(got < size);
        }
        x += 0.0371;
    }
}

#[test]
fn size_is_width_then_height() {
    let textures = vec![gradient(3, 2), gradient(5, 7)];
    assert_eq!(texture_size(&textures, 0), Some((3, 2)));
    assert_eq!(texture_size(&textures, 1), Some((5, 7)));
    assert_eq!(texture_size(&textures, 2), None);
    assert_eq!(texture_size(&vec![], 0), None);
}

#[test]
fn sample_reads_the_pixel_under_the_coordinate() {
    let textures = vec![gradient(3, 2), gradient(5, 7)];
    assert_eq!(sample(&textures, 0, at(0.0, 0.0)), Some((0, 0, 0)));
    assert_eq!(sample(&textures, 0, at(0.9, 0.6)), Some((2, 1, 21)));
    assert_eq!(sample(&textures, 0, at(0.5, 0.1)), Some((1, 0, 10)));
    assert_eq!(sample(&textures, 1, at(0.95, 0.95)), Some((4, 6, 46)));
    assert_eq!(sample(&textures, 1, at(0.1, 0.9)), Some((0, 6, 6)));
}

#[test]
fn sample_repeats_the_texture() {
    let textures = vec![gradient(3, 2)];
    assert_eq!(sample(&textures, 0, at(1.0, 1.0)), Some((0, 0, 0)));
    assert_eq!(sample(&textures, 0, at(7.9, 3.6)), Some((2, 1, 21)));
    assert_eq!(sample(&textures, 0, at(19.5, 20.0)), Some((1, 0, 10)));
    assert_eq!(sample(&textures, 0, at(-0.1, -0.4)), Some((2, 1, 21)));
    assert_eq!(sample(&textures, 0, at(f32::NAN, f32::INFINITY)), Some((0, 0, 0)));
}

#[test]
fn sample_of_a_missing_or_empty_texture_is_nothing() {
    let textures = vec![gradient(3, 2), gradient(0, 0), gradient(0, 4)];
    assert_eq!(sample(&textures, 3, at(0.0, 0.0)), None);
    assert_eq!(sample(&textures, 1, at(0.0, 0.0)), None);
    assert_eq!(sample(&textures, 2, at(0.0, 0.0)), None);
    assert_eq!(texture_size(&textures, 1), Some((0, 0)));
}

#[test]
fn sample_drops_the_alpha_channel() {
    let mut image = RgbaImage::new(1, 1);
    image.put_pixel(0, 0, Rgba([200, 100, 50, 7]));
    let textures = vec![DynamicImage::ImageRgba8(image)];
    assert_eq!(sample(&textures, 0, at(0.3, 0.3)), Some((200, 100, 50)));
}
