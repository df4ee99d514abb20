//! Looking up the colour of a texture at a pixel.
use crate::scalar::Scalar;
use crate::types::V2;
use image::DynamicImage;
use vstd::arithmetic::div_mod::{lemma_basic_div, lemma_fundamental_div_mod_converse};
use vstd::arithmetic::power2::{lemma2_to64, lemma2_to64_rest, lemma_pow2_pos, lemma_pow2_strictly_increases, pow2};
use vstd::bits::lemma_u64_shl_is_mul;
use vstd::prelude::*;

verus! {

/// `image::DynamicImage`, an image of any pixel format. The library sees
/// nothing inside it; it reads it through the two functions below.
#[verifier::external_type_specification]
#[verifier::external_body]
pub struct ExDynamicImage(image::DynamicImage);

/// The width and the height of an image, in pixels.
pub uninterp spec fn extent(image: DynamicImage) -> (u32, u32);

/// The red, green and blue of each pixel of an image, by column and row,
/// counted from the top left.
pub uninterp spec fn texels(image: DynamicImage) -> Map<(u32, u32), (u8, u8, u8)>;

/// `image::GenericImageView::dimensions` of a `DynamicImage`: the width and
/// height of the image, which this library calls its extent.
#[verifier::external_body]
fn dimensions(image: &DynamicImage) -> (r: (u32, u32))
    ensures
        r == extent(*image),
{
    image::GenericImageView::dimensions(image)
}

/// `image::GenericImageView::get_pixel` of a `DynamicImage`, without the
/// alpha channel. The call panics outside the image, so both coordinates must
/// lie inside its extent; what it returns there is the image's pixel, which
/// this library calls a texel.
#[verifier::external_body]
fn pixel(image: &DynamicImage, column: u32, row: u32) -> (r: (u8, u8, u8))
    requires
        column < extent(*image).0,
        row < extent(*image).1,
    ensures
        r == texels(*image)[(column, row)],
{
    let p = image::GenericImageView::get_pixel(image, column, row);
    (p.0[0], p.0[1], p.0[2])
}

/// A coordinate wrapped into `[0, 1)`, as a fraction: what is left of it
/// above the whole number below it. A coordinate that is a whole number, or
/// no finite number at all, wraps to 0.
pub open spec fn wrapped(coordinate: Scalar) -> (int, int) {
    if !coordinate.finite() || coordinate.scale() >= 0 {
        (0, 1)
    } else {
        let unit = pow2((-coordinate.scale()) as nat) as int;
        let part = coordinate.significand() % unit;
        if !coordinate.negative() || part == 0 {
            (part, unit)
        } else {
            (unit - part, unit)
        }
    }
}

/// The pixel at a texture coordinate along an axis on which the texture has
/// `size` pixels: the coordinate is wrapped into `[0, 1)`, scaled by `size`
/// and rounded down.
pub open spec fn texel_at(coordinate: Scalar, size: u32) -> int {
    (wrapped(coordinate).0 * size) / wrapped(coordinate).1
}

/// A wrapped coordinate lies in `[0, 1)`, so its pixel lies in the texture.
pub proof fn lemma_texel_in_texture(coordinate: Scalar, size: u32)
    ensures
        0 <= wrapped(coordinate).0 < wrapped(coordinate).1,
        0 <= texel_at(coordinate, size),
        size > 0 ==> texel_at(coordinate, size) < size,
{
    let (part, unit) = wrapped(coordinate);
    if coordinate.finite() && coordinate.scale() < 0 {
        lemma_pow2_pos((-coordinate.scale()) as nat);
        assert(0 <= coordinate.significand() % unit < unit);
    }
    lemma_scaled_fraction(part, unit, size as int);
}

/// For a fraction `part / unit` in `[0, 1)`, the whole part of `size` times
/// the fraction is a number from 0 up to, not including, `size`.
proof fn lemma_scaled_fraction(part: int, unit: int, size: int)
    requires
        0 <= part < unit,
        0 <= size,
    ensures
        0 <= (part * size) / unit,
        size > 0 ==> (part * size) / unit < size,
{
    let q = (part * size) / unit;
    let r = (part * size) % unit;
    vstd::arithmetic::div_mod::lemma_fundamental_div_mod(part * size, unit);
    assert(0 <= r < unit);
    assert(0 <= part * size) by (nonlinear_arith)
        requires
            0 <= part,
            0 <= size,
    ;
    assert(0 <= q) by (nonlinear_arith)
        requires
            part * size == unit * q + r,
            0 <= part * size,
            0 <= r < unit,
    ;
    if size > 0 {
        assert(part * size < unit * size) by (nonlinear_arith)
            requires
                0 <= part < unit,
                0 < size,
        ;
        assert(q < size) by (nonlinear_arith)
            requires
                part * size == unit * q + r,
                part * size < unit * size,
                0 <= r < unit,
        ;
    }
}

/// The pixel at a texture coordinate; see [`texel_at`].
pub fn texel(coordinate: Scalar, size: u32) -> (r: u32)
    ensures
        r == texel_at(coordinate, size),
        size > 0 ==> r < size,
{
    proof {
        lemma_texel_in_texture(coordinate, size);
    }
    if !coordinate.is_finite() {
        assert(texel_at(coordinate, size) == 0);
        return 0;
    }
    let (digits, scale) = coordinate.digits();
    if scale >= 0 || size == 0 {
        assert(texel_at(coordinate, size) == 0) by {
            if scale >= 0 {
                assert(wrapped(coordinate) == (0int, 1int));
            } else {
                assert(wrapped(coordinate).0 * 0 == 0);
                lemma_pow2_pos((-scale) as nat);
                lemma_basic_div(0, wrapped(coordinate).1);
            }
        }
        return 0;
    }
    let shift: u32 = (0 - scale) as u32;
    let negative: bool = coordinate.is_negative();
    let ghost unit = pow2(shift as nat) as int;
    proof {
        lemma2_to64();
        lemma2_to64_rest();
        lemma_pow2_pos(shift as nat);
    }
    if shift >= 56 {
        // The unit is so large that the digits lie below it even when they
        // are scaled by the size.
        proof {
            if shift > 56 {
                lemma_pow2_strictly_increases(56, shift as nat);
            }
            assert(unit >= 0x100_0000_0000_0000);
            assert(digits * size < 0x100_0000_0000_0000) by (nonlinear_arith)
                requires
                    digits < 0x100_0000,
                    size <= 0xffff_ffff,
            ;
            vstd::arithmetic::div_mod::lemma_small_mod(digits as nat, unit as nat);
            assert(coordinate.significand() % unit == digits);
        }
        if digits == 0 || !negative {
            proof {
                assert(wrapped(coordinate) == (digits as int, unit));
                assert(0 <= digits * size) by (nonlinear_arith);
                lemma_basic_div(digits * size, unit);
            }
            0
        } else {
            proof {
                assert(wrapped(coordinate) == (unit - digits, unit));
                assert(0 < digits * size) by (nonlinear_arith)
                    requires
                        0 < digits,
                        0 < size,
                ;
                assert((unit - digits) * size == (size - 1) * unit + (unit - digits * size))
                    by (nonlinear_arith);
                lemma_fundamental_div_mod_converse(
                    (unit - digits) * size,
                    unit,
                    size - 1,
                    unit - digits * size,
                );
            }
            size - 1
        }
    } else {
        proof {
            if shift < 55 {
                lemma_pow2_strictly_increases(shift as nat, 55);
            }
            assert(unit <= 0x80_0000_0000_0000);
            lemma_u64_shl_is_mul(1, shift as u64);
        }
        let one: u64 = 1;
        let whole: u64 = one << (shift as u64);
        assert(whole == unit);
        let part: u64 = (digits as u64) % whole;
        let above: u64 = if !negative || part == 0 {
            part
        } else {
            whole - part
        };
        assert(wrapped(coordinate) == (above as int, unit));
        proof {
            assert(above * size <= unit * size) by (nonlinear_arith)
                requires
                    above <= unit,
                    0 <= size,
            ;
            assert(unit * size <= 0x80_0000_0000_0000 * 0xffff_ffff) by (nonlinear_arith)
                requires
                    0 <= unit <= 0x80_0000_0000_0000,
                    0 <= size <= 0xffff_ffff,
            ;
        }
        let scaled: u128 = (above as u128) * (size as u128);
        (scaled / (whole as u128)) as u32
    }
}

/// What [`texture_size`] returns.
pub open spec fn size_of(textures: Seq<DynamicImage>, texture: int) -> Option<(u32, u32)> {
    if 0 <= texture < textures.len() {
        Some(extent(textures[texture]))
    } else {
        None
    }
}

/// What [`sample`] returns.
pub open spec fn sampled(textures: Seq<DynamicImage>, texture: int, coordinate: V2) -> Option<
    (u8, u8, u8),
> {
    if 0 <= texture < textures.len() && extent(textures[texture]).0 > 0 && extent(
        textures[texture],
    ).1 > 0 {
        let (width, height) = extent(textures[texture]);
        Some(
            texels(textures[texture])[(
                texel_at(coordinate.x, width) as u32,
                texel_at(coordinate.y, height) as u32,
            )],
        )
    } else {
        None
    }
}

/// The width and height of texture number `texture`, or nothing where there
/// is no such texture.
pub fn texture_size(textures: &Vec<DynamicImage>, texture: usize) -> (r: Option<(u32, u32)>)
    ensures
        r == size_of(textures@, texture as int),
{
    if texture < textures.len() {
        Some(dimensions(&textures[texture]))
    } else {
        None
    }
}

/// The red, green and blue of texture number `texture` at a texture
/// coordinate: each axis is wrapped into `[0, 1)`, so that the texture
/// repeats, and the pixel under the coordinate is read, columns by `x` and
/// rows by `y`. Nothing is returned where there is no such texture or the
/// texture has no pixels.
pub fn sample(textures: &Vec<DynamicImage>, texture: usize, coordinate: V2) -> (r: Option<
    (u8, u8, u8),
>)
    ensures
        r == sampled(textures@, texture as int, coordinate),
{
    if texture >= textures.len() {
        return None;
    }
    let image = &textures[texture];
    let (width, height) = dimensions(image);
    if width == 0 || height == 0 {
        return None;
    }
    Some(pixel(image, texel(coordinate.x, width), texel(coordinate.y, height)))
}

} // verus!
