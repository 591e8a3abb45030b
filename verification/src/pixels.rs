//! The pixels of bitmap glyphs.
//!
//! A strike stores a glyph either as a mask, i.e. as coverage only, or as
//! premultiplied BGRA. Both become straight RGBA here.

use skrifa::bitmap::MaskData;
use vstd::arithmetic::power2::{lemma2_to64, pow2};
use vstd::prelude::*;

use crate::tree::Color;

verus! {

/// A single channel mask as skrifa hands it out: its bit depth, whether rows
/// are packed, and its bytes.
#[verifier::external_type_specification]
pub struct ExMaskData<'a>(skrifa::bitmap::MaskData<'a>);

/// What a mask holds.
pub struct MaskView {
    pub bpp: u8,
    pub is_packed: bool,
    pub data: Seq<u8>,
}

/// What `mask` holds.
pub open spec fn mask_view(mask: MaskData) -> MaskView {
    MaskView { bpp: mask.bpp, is_packed: mask.is_packed, data: mask.data@ }
}

/// The least multiple of eight that is not below `n`.
pub open spec fn next_multiple_of_8(n: nat) -> nat {
    (n + 7) / 8 * 8
}

/// `value` out of `pow2(bpp) - 1`, scaled to a byte.
pub open spec fn scale_to_byte(value: nat, bpp: nat) -> nat {
    (value * 255) as nat / (pow2(bpp) - 1) as nat
}

impl MaskView {
    /// Where the pixel at `x`, `y` of an image of this width starts, in bits.
    ///
    /// A packed mask is a continuous bit stream, while an unpacked one restarts
    /// at a byte boundary on every row.
    pub open spec fn bit(self, x: nat, y: nat, width: nat) -> nat {
        if self.is_packed {
            (y * width + x) * self.bpp as nat
        } else {
            y * next_multiple_of_8(width * self.bpp as nat) + x * self.bpp as nat
        }
    }

    /// Whether the pixel lies past the end of the data, or within one byte.
    pub open spec fn is_readable(self, x: nat, y: nat, width: nat) -> bool {
        self.bit(x, y, width) / 8 < self.data.len() ==> {
            &&& self.bpp > 0
            &&& self.bit(x, y, width) % 8 + self.bpp <= 8
        }
    }

    /// The coverage of a pixel. Pixels are stored from the most to the least
    /// significant bit of a byte, and those past the end of the data are
    /// transparent.
    pub open spec fn coverage(self, x: nat, y: nat, width: nat) -> nat {
        let bit: nat = self.bit(x, y, width);
        let bpp: nat = self.bpp as nat;
        if bit / 8 >= self.data.len() {
            0
        } else {
            let byte: nat = self.data[(bit / 8) as int] as nat;
            let above: nat = byte / pow2((8 - bpp - bit % 8) as nat);
            scale_to_byte(above % pow2(bpp), bpp)
        }
    }

    /// Whether the bit depth is one that a mask can have.
    pub open spec fn has_valid_depth(self) -> bool {
        self.bpp == 1 || self.bpp == 2 || self.bpp == 4 || self.bpp == 8
    }
}

/// A value scaled to a byte is a byte.
proof fn lemma_scale_fits(value: nat, bpp: nat)
    requires
        0 < bpp <= 8,
        value < pow2(bpp),
    ensures
        0 <= scale_to_byte(value, bpp) <= 255,
{
    lemma2_to64();
    let max: nat = (pow2(bpp) - 1) as nat;
    vstd::arithmetic::power2::lemma_pow2_pos(bpp);
    assert(max >= 1) by {
        vstd::arithmetic::power2::lemma_pow2_strictly_increases(0, bpp);
    }
    assert(value * 255 <= 255 * max) by (nonlinear_arith)
        requires
            value <= max,
    ;
    assert(0 <= (value * 255) / max <= 255) by (nonlinear_arith)
        requires
            value * 255 <= 255 * max,
            max >= 1,
    ;
}

/// The low bits of the byte shifted down are the digit at that place.
proof fn lemma_digit(byte: u8, shift: u8, bpp: u8, max: u8)
    requires
        0 < bpp <= 8,
        shift + bpp <= 8,
        max == pow2(bpp as nat) - 1,
    ensures
        ((byte >> shift) & max) == (byte as nat / pow2(shift as nat)) % pow2(bpp as nat),
{
    lemma2_to64();
    vstd::bits::lemma_u8_shr_is_div(byte, shift);
    if bpp == 8 {
        let all: u8 = byte >> shift;
        assert(all & 255 == all) by (bit_vector);
    } else {
        vstd::bits::lemma_u8_low_bits_mask_is_mod(byte >> shift, bpp as nat);
        vstd::bits::lemma_low_bits_mask_values();
    }
}

/// Reads the coverage value of a single pixel of a bitmap mask and scales it to
/// the 0..=255 range, where 255 means "fully covered by the glyph".
pub fn mask_coverage(mask: &MaskData, x: u32, y: u32, width: u32) -> (res: u8)
    requires
        mask_view(*mask).is_readable(x as nat, y as nat, width as nat),
    ensures
        res == mask_view(*mask).coverage(x as nat, y as nat, width as nat),
{
    let bpp: u128 = mask.bpp as u128;
    assert(y * width <= 0xffff_ffff * 0xffff_ffff) by (nonlinear_arith)
        requires
            0 <= y <= 0xffff_ffff,
            0 <= width <= 0xffff_ffff,
    ;
    let bit: u128 = if mask.is_packed {
        let pixel: u128 = y as u128 * width as u128 + x as u128;
        assert(pixel * bpp <= 0x1_0000_0000_0000_0000 * 255) by (nonlinear_arith)
            requires
                0 <= pixel <= 0x1_0000_0000_0000_0000,
                0 <= bpp <= 255,
        ;
        pixel * bpp
    } else {
        assert(width * bpp <= 0xffff_ffff * 255) by (nonlinear_arith)
            requires
                0 <= width <= 0xffff_ffff,
                0 <= bpp <= 255,
        ;
        let row_bits: u128 = (width as u128 * bpp + 7) / 8 * 8;
        assert(y * row_bits <= 0xffff_ffff * 0x100_0000_0000) by (nonlinear_arith)
            requires
                0 <= y <= 0xffff_ffff,
                0 <= row_bits <= 0x100_0000_0000,
        ;
        assert(x * bpp <= 0xffff_ffff * 255) by (nonlinear_arith)
            requires
                0 <= x <= 0xffff_ffff,
                0 <= bpp <= 255,
        ;
        y as u128 * row_bits + x as u128 * bpp
    };
    assert(bit == mask_view(*mask).bit(x as nat, y as nat, width as nat));
    if bit / 8 >= mask.data.len() as u128 {
        return 0;
    }
    let byte: u8 = mask.data[(bit / 8) as usize];
    let bpp: u8 = mask.bpp;
    let shift: u8 = 8 - bpp - (bit % 8) as u8;
    assert(1u16 << bpp == pow2(bpp as nat) && 2 <= (1u16 << bpp) <= 256) by {
        lemma2_to64();
        assert(0 < bpp <= 8 ==> (1u16 << bpp) == (if bpp == 1 {
            2u16
        } else if bpp == 2 {
            4
        } else if bpp == 3 {
            8
        } else if bpp == 4 {
            16
        } else if bpp == 5 {
            32
        } else if bpp == 6 {
            64
        } else if bpp == 7 {
            128
        } else {
            256
        })) by (bit_vector);
    }
    let max: u8 = ((1u16 << bpp) - 1) as u8;
    let value: u8 = (byte >> shift) & max;
    proof {
        lemma_digit(byte, shift, bpp, max);
        vstd::arithmetic::div_mod::lemma_mod_bound(
            (byte as nat / pow2(shift as nat)) as int,
            pow2(bpp as nat) as int,
        );
        lemma_scale_fits(value as nat, bpp as nat);
    }
    (value as u16 * 255 / max as u16) as u8
}

/// A pixel of a valid bit depth never straddles two bytes.
pub proof fn lemma_valid_depth_is_readable(mask: MaskView, x: nat, y: nat, width: nat)
    requires
        mask.has_valid_depth(),
    ensures
        mask.is_readable(x, y, width),
{
    let bpp: nat = mask.bpp as nat;
    let bit: nat = mask.bit(x, y, width);
    let pixel: nat = y * width + x;
    let rows: nat = y * ((width * bpp + 7) / 8);
    assert(y * ((width * bpp + 7) / 8 * 8) == rows * 8) by (nonlinear_arith)
        requires
            rows == y * ((width * bpp + 7) / 8),
    ;
    if bpp == 2 {
        assert(pixel * bpp == pixel * 2 && x * bpp == x * 2) by (nonlinear_arith)
            requires
                bpp == 2,
        ;
        assert(bit == pixel * 2 || bit == (rows * 4 + x) * 2);
    } else if bpp == 4 {
        assert(pixel * bpp == pixel * 4 && x * bpp == x * 4) by (nonlinear_arith)
            requires
                bpp == 4,
        ;
        assert(bit == pixel * 4 || bit == (rows * 2 + x) * 4);
    } else if bpp == 8 {
        assert(pixel * bpp == pixel * 8 && x * bpp == x * 8) by (nonlinear_arith)
            requires
                bpp == 8,
        ;
        assert(bit == pixel * 8 || bit == (rows + x) * 8);
    }
}

/// Channel `i` of the straight RGBA image that a mask becomes. The color is
/// the same everywhere; the alpha is the coverage, weakened by the opacity.
pub open spec fn mask_channel(mask: MaskView, width: nat, color: Color, opacity: u8, i: nat) -> u8 {
    let pixel: nat = i / 4;
    if i % 4 == 0 {
        color.red
    } else if i % 4 == 1 {
        color.green
    } else if i % 4 == 2 {
        color.blue
    } else {
        (mask.coverage(pixel % width, pixel / width, width) * opacity / 255) as u8
    }
}

/// The straight RGBA image that a mask becomes.
pub open spec fn mask_rgba(mask: MaskView, width: u32, height: u32, color: Color, opacity: u8) -> Seq<
    u8,
> {
    Seq::new(
        (width * height * 4) as nat,
        |i: int| mask_channel(mask, width as nat, color, opacity, i as nat),
    )
}

/// The coverage of a pixel is a byte.
pub proof fn lemma_coverage_fits(mask: MaskView, x: nat, y: nat, width: nat)
    requires
        mask.is_readable(x, y, width),
    ensures
        0 <= mask.coverage(x, y, width) <= 255,
{
    let bit: nat = mask.bit(x, y, width);
    if bit / 8 < mask.data.len() {
        let bpp: nat = mask.bpp as nat;
        let above: nat = mask.data[(bit / 8) as int] as nat / pow2((8 - bpp - bit % 8) as nat);
        vstd::arithmetic::power2::lemma_pow2_pos(bpp);
        vstd::arithmetic::div_mod::lemma_mod_bound(above as int, pow2(bpp) as int);
        lemma_scale_fits(above % pow2(bpp), bpp);
    }
}

/// Converts a 1, 2, 4 or 8 bits-per-pixel bitmap mask into straight RGBA.
///
/// A mask only stores coverage, so the glyph is painted in `color`, just like an
/// outline glyph would be. `opacity` is the fill opacity, which an image cannot
/// carry on its own. Returns `None` for any other bit depth, and when the image
/// does not fit into memory.
pub fn mask_to_rgba(
    mask: &MaskData,
    width: u32,
    height: u32,
    color: Color,
    opacity: u8,
) -> (res: Option<Vec<u8>>)
    ensures
        match res {
            Some(rgba) => {
                &&& mask_view(*mask).has_valid_depth()
                &&& width * height * 4 <= usize::MAX
                &&& rgba@ == mask_rgba(mask_view(*mask), width, height, color, opacity)
            },
            None => !mask_view(*mask).has_valid_depth() || width * height * 4 > usize::MAX,
        },
{
    if !(mask.bpp == 1 || mask.bpp == 2 || mask.bpp == 4 || mask.bpp == 8) {
        return None;
    }
    rgba_len(width, height)?;
    let ghost view: MaskView = mask_view(*mask);
    let ghost w: nat = width as nat;
    let mut rgba: Vec<u8> = Vec::new();
    let mut y: u32 = 0;
    while y < height
        invariant
            y <= height,
            view == mask_view(*mask),
            w == width,
            view.has_valid_depth(),
            rgba@.len() == y * width * 4,
            forall|i: int|
                0 <= i < rgba@.len() ==> #[trigger] rgba@[i] == mask_channel(
                    view,
                    w,
                    color,
                    opacity,
                    i as nat,
                ),
        decreases height - y,
    {
        let mut x: u32 = 0;
        assert((y * width + x) * 4 == y * width * 4) by (nonlinear_arith)
            requires
                x == 0,
        ;
        while x < width
            invariant
                x <= width,
                view == mask_view(*mask),
                w == width,
                view.has_valid_depth(),
                rgba@.len() == (y * width + x) * 4,
                forall|i: int|
                    0 <= i < rgba@.len() ==> #[trigger] rgba@[i] == mask_channel(
                        view,
                        w,
                        color,
                        opacity,
                        i as nat,
                    ),
            decreases width - x,
        {
            let ghost pixel: nat = (y * width + x) as nat;
            proof {
                lemma_valid_depth_is_readable(view, x as nat, y as nat, w);
                lemma_coverage_fits(view, x as nat, y as nat, w);
                assert(0 <= y * width) by (nonlinear_arith);
                vstd::arithmetic::div_mod::lemma_fundamental_div_mod_converse(
                    pixel as int,
                    width as int,
                    y as int,
                    x as int,
                );
            }
            let coverage: u8 = mask_coverage(mask, x, y, width);
            assert(0 <= coverage * opacity <= 255 * 255) by (nonlinear_arith)
                requires
                    0 <= coverage <= 255,
                    0 <= opacity <= 255,
            ;
            rgba.push(color.red);
            rgba.push(color.green);
            rgba.push(color.blue);
            rgba.push((coverage as u16 * opacity as u16 / 255) as u8);
            x = x + 1;
        }
        assert((y * width + width) * 4 == (y + 1) * width * 4) by (nonlinear_arith);
        y = y + 1;
    }
    assert(rgba@ =~= mask_rgba(view, width, height, color, opacity)) by {
        assert(height * width == width * height) by (nonlinear_arith);
    }
    Some(rgba)
}

/// The length of an RGBA image, if it can be addressed.
fn rgba_len(width: u32, height: u32) -> (res: Option<usize>)
    ensures
        match res {
            Some(len) => len == width * height * 4,
            None => width * height * 4 > usize::MAX,
        },
{
    (width as usize).checked_mul(height as usize)?.checked_mul(4)
}

/// A premultiplied channel made straight again.
pub open spec fn unpremultiplied(c: u8, a: u8) -> u8 {
    if a == 0 {
        0
    } else if c * 255 / a as int > 255 {
        255
    } else {
        (c * 255 / a as int) as u8
    }
}

fn unpremultiply(c: u8, a: u8) -> (res: u8)
    ensures
        res == unpremultiplied(c, a),
{
    if a == 0 {
        0
    } else {
        let straight: u16 = c as u16 * 255 / a as u16;
        if straight > 255 {
            255
        } else {
            straight as u8
        }
    }
}

/// Channel `i` of the straight RGBA image that premultiplied BGRA becomes.
pub open spec fn bgra_channel(data: Seq<u8>, i: nat) -> u8 {
    let first: int = (i / 4 * 4) as int;
    let a: u8 = data[first + 3];
    if i % 4 == 3 {
        a
    } else {
        unpremultiplied(data[first + 2 - i % 4], a)
    }
}

/// The straight RGBA image that premultiplied BGRA becomes.
pub open spec fn bgra_rgba(data: Seq<u8>, width: u32, height: u32) -> Seq<u8> {
    Seq::new((width * height * 4) as nat, |i: int| bgra_channel(data, i as nat))
}

/// Converts a premultiplied BGRA color bitmap into straight RGBA. Returns
/// `None` when `data` is too short for an image of this size.
pub fn bgra_to_rgba(data: &[u8], width: u32, height: u32) -> (res: Option<Vec<u8>>)
    ensures
        match res {
            Some(rgba) => {
                &&& width * height * 4 <= data@.len()
                &&& rgba@ == bgra_rgba(data@, width, height)
            },
            None => width * height * 4 > data@.len(),
        },
{
    let available: usize = data.len();
    let len: usize = rgba_len(width, height)?;
    if len > available {
        return None;
    }
    let mut rgba: Vec<u8> = Vec::new();
    let mut at: usize = 0;
    while at < len
        invariant
            at <= len <= data@.len(),
            at % 4 == 0,
            len == width * height * 4,
            rgba@.len() == at,
            forall|i: int|
                0 <= i < at ==> #[trigger] rgba@[i] == bgra_channel(data@, i as nat),
        decreases len - at,
    {
        assert(at + 4 <= len) by {
            assert((width * height * 4) % 4 == 0);
        }
        // PNG stores straight alpha, so the color channels have to be undone.
        let a: u8 = data[at + 3];
        rgba.push(unpremultiply(data[at + 2], a));
        rgba.push(unpremultiply(data[at + 1], a));
        rgba.push(unpremultiply(data[at], a));
        rgba.push(a);
        at = at + 4;
    }
    assert(rgba@ =~= bgra_rgba(data@, width, height));
    Some(rgba)
}

/// The steps of a bit depth are spread evenly over a byte: by 255, by 85, by 17
/// or by 1, so that no coverage stays 0 and full coverage becomes 255.
pub proof fn law_coverage_steps_are_even(value: nat, bpp: nat)
    requires
        bpp == 1 || bpp == 2 || bpp == 4 || bpp == 8,
        value < pow2(bpp),
    ensures
        bpp == 1 ==> scale_to_byte(value, bpp) == value * 255,
        bpp == 2 ==> scale_to_byte(value, bpp) == value * 85,
        bpp == 4 ==> scale_to_byte(value, bpp) == value * 17,
        bpp == 8 ==> scale_to_byte(value, bpp) == value,
        scale_to_byte(0, bpp) == 0,
        scale_to_byte((pow2(bpp) - 1) as nat, bpp) == 255,
{
    lemma2_to64();
    let max: nat = (pow2(bpp) - 1) as nat;
    assert((max * 255) / max == 255) by (nonlinear_arith)
        requires
            max > 0,
    ;
    assert(scale_to_byte(value, bpp) == (value * 255) / max);
    if bpp == 1 {
        assert(max == 1);
    } else if bpp == 2 {
        assert(max == 3);
    } else if bpp == 4 {
        assert(max == 15);
    } else {
        assert(max == 255);
    }
}

/// Padding is all that tells a packed mask from an unpacked one: where rows end
/// on a byte boundary anyway, both are read alike.
pub proof fn law_packing_only_drops_padding(bpp: u8, data: Seq<u8>, x: nat, y: nat, width: nat)
    requires
        (width * bpp as nat) % 8 == 0,
    ensures
        ({
            let packed = MaskView { bpp, is_packed: true, data };
            let unpacked = MaskView { bpp, is_packed: false, data };
            packed.coverage(x, y, width) == unpacked.coverage(x, y, width)
        }),
{
    let b: nat = bpp as nat;
    let row: nat = width * b;
    assert(next_multiple_of_8(row) == row);
    assert((y * width + x) * b == y * (width * b) + x * b) by (nonlinear_arith);
}

/// A mask takes its color from the fill, whatever it covers.
pub proof fn law_mask_is_painted_in_the_fill(
    mask: MaskView,
    width: u32,
    height: u32,
    color: Color,
    opacity: u8,
    pixel: nat,
)
    requires
        pixel < width * height,
    ensures
        mask_rgba(mask, width, height, color, opacity)[(4 * pixel) as int] == color.red,
        mask_rgba(mask, width, height, color, opacity)[(4 * pixel + 1) as int] == color.green,
        mask_rgba(mask, width, height, color, opacity)[(4 * pixel + 2) as int] == color.blue,
{
}

/// An opaque fill leaves the coverage as it is, and a transparent one leaves
/// nothing of it.
pub proof fn law_opacity_weakens_coverage(
    mask: MaskView,
    width: nat,
    color: Color,
    opacity: u8,
    pixel: nat,
)
    requires
        mask.has_valid_depth(),
    ensures
        ({
            let coverage = mask.coverage(pixel % width, pixel / width, width);
            let alpha = mask_channel(mask, width, color, opacity, 4 * pixel + 3);
            &&& opacity == 255 ==> alpha == coverage
            &&& opacity == 0 ==> alpha == 0
            &&& alpha <= coverage
            &&& alpha <= opacity
        }),
{
    let x: nat = pixel % width;
    let y: nat = pixel / width;
    lemma_valid_depth_is_readable(mask, x, y, width);
    lemma_coverage_fits(mask, x, y, width);
    let coverage: nat = mask.coverage(x, y, width);
    assert((4 * pixel + 3) / 4 == pixel && (4 * pixel + 3) % 4 == 3);
    let product: int = coverage * opacity;
    assert(0 <= product <= 255 * 255) by (nonlinear_arith)
        requires
            product == coverage * opacity,
            0 <= coverage <= 255,
            0 <= opacity <= 255,
    ;
    assert(mask_channel(mask, width, color, opacity, 4 * pixel + 3) == product / 255);
    if opacity == 255 {
        assert(product == coverage * 255);
    } else if opacity == 0 {
        assert(product == 0);
    }
    assert(product <= 255 * coverage && product <= 255 * opacity) by (nonlinear_arith)
        requires
            product == coverage * opacity,
            0 <= coverage <= 255,
            0 <= opacity <= 255,
    ;
}

/// Undoing the premultiplication changes nothing of an opaque pixel but the
/// order of its channels, and leaves nothing of a transparent one.
pub proof fn law_opaque_bgra_only_swaps_channels(data: Seq<u8>, pixel: nat)
    ensures
        data[(4 * pixel + 3) as int] == 255 ==> {
            &&& bgra_channel(data, 4 * pixel) == data[(4 * pixel + 2) as int]
            &&& bgra_channel(data, 4 * pixel + 1) == data[(4 * pixel + 1) as int]
            &&& bgra_channel(data, 4 * pixel + 2) == data[(4 * pixel) as int]
        },
        data[(4 * pixel + 3) as int] == 0 ==> {
            &&& bgra_channel(data, 4 * pixel) == 0
            &&& bgra_channel(data, 4 * pixel + 1) == 0
            &&& bgra_channel(data, 4 * pixel + 2) == 0
        },
        bgra_channel(data, 4 * pixel + 3) == data[(4 * pixel + 3) as int],
{
    assert forall|c: u8| #[trigger] unpremultiplied(c, 255) == c by {
        assert(c * 255 / 255 == c);
    }
    let first: nat = 4 * pixel;
    assert(first / 4 * 4 == first && first % 4 == 0);
    assert((first + 1) / 4 * 4 == first && (first + 1) % 4 == 1);
    assert((first + 2) / 4 * 4 == first && (first + 2) % 4 == 2);
    assert((first + 3) / 4 * 4 == first && (first + 3) % 4 == 3);
}

/// A straight channel is never darker than the premultiplied one, and as bright
/// as can be where the channel reaches the alpha.
pub proof fn law_unpremultiplied_is_brighter(c: u8, a: u8)
    requires
        a > 0,
    ensures
        unpremultiplied(c, a) >= c,
        c >= a ==> unpremultiplied(c, a) == 255,
{
    let product: int = c * 255;
    let bright: int = product / a as int;
    assert(bright >= c) by (nonlinear_arith)
        requires
            bright == (c * 255) / a as int,
            0 < a <= 255,
            c >= 0,
    ;
    assert(c >= a ==> bright >= 255) by (nonlinear_arith)
        requires
            bright == (c * 255) / a as int,
            0 < a <= 255,
            c >= 0,
    ;
}

/// A mask can have the bit depths that split a byte evenly, and no others.
pub proof fn law_valid_depths_split_a_byte(mask: MaskView)
    ensures
        mask.has_valid_depth() <==> 0 < mask.bpp <= 8 && 8int % mask.bpp as int == 0,
{
    assert(8int % 1 == 0 && 8int % 2 == 0 && 8int % 4 == 0 && 8int % 8 == 0);
    assert(8int % 3 != 0 && 8int % 5 != 0 && 8int % 6 != 0 && 8int % 7 != 0);
    let bpp: int = mask.bpp as int;
    assert(bpp == 0 || bpp == 1 || bpp == 2 || bpp == 3 || bpp == 4 || bpp == 5 || bpp == 6 || bpp
        == 7 || bpp == 8 || bpp > 8);
}

/// The pixels of a row follow each other without a gap. So do the rows of a
/// packed mask. Those of an unpacked one start at a byte each, do not overlap,
/// and are padded by less than a byte.
pub proof fn law_rows_follow_each_other(mask: MaskView, x: nat, y: nat, width: nat)
    ensures
        mask.bit(0, 0, width) == 0,
        mask.bit(x + 1, y, width) - mask.bit(x, y, width) == mask.bpp,
        ({
            let distance = mask.bit(x, y + 1, width) - mask.bit(x, y, width);
            if mask.is_packed {
                distance == width * mask.bpp
            } else {
                distance % 8 == 0 && width * mask.bpp <= distance < width * mask.bpp + 8
            }
        }),
{
    let bpp: nat = mask.bpp as nat;
    let row: nat = next_multiple_of_8(width * bpp);
    assert((y * width + x + 1) * bpp == (y * width + x) * bpp + bpp) by (nonlinear_arith);
    assert((x + 1) * bpp == x * bpp + bpp) by (nonlinear_arith);
    assert(((y + 1) * width + x) * bpp == (y * width + x) * bpp + width * bpp)
        by (nonlinear_arith);
    assert((y + 1) * row == y * row + row) by (nonlinear_arith);
    assert(0 * width == 0 && 0 * bpp == 0 && 0 * row == 0) by (nonlinear_arith);
}

/// A pixel is read from its own bits: `row` bits per row of an unpacked mask,
/// which are the fewest whole bytes that hold a row, or as many bits as there
/// are pixels before it in a packed one. The steps of a bit depth are spread
/// evenly over a byte. What lies past the end of the data is transparent.
pub proof fn law_pixels_are_read_from_their_own_bits(
    mask: MaskView,
    x: nat,
    y: nat,
    width: nat,
    row: nat,
)
    requires
        mask.bpp == 1 || mask.bpp == 2 || mask.bpp == 4 || mask.bpp == 8,
        !mask.is_packed ==> row % 8 == 0 && width * mask.bpp <= row < width * mask.bpp + 8,
    ensures
        ({
            let bit: nat = if mask.is_packed {
                (y * width + x) * mask.bpp as nat
            } else {
                y * row + x * mask.bpp as nat
            };
            let byte: u8 = mask.data[(bit / 8) as int];
            let coverage: nat = mask.coverage(x, y, width);
            if bit / 8 >= mask.data.len() {
                coverage == 0
            } else if mask.bpp == 8 {
                coverage == byte
            } else if mask.bpp == 4 {
                coverage == 17 * (if bit % 8 == 0 {
                    byte / 16
                } else {
                    byte % 16
                })
            } else if mask.bpp == 2 {
                coverage == 85 * (byte as nat / pow2((6 - bit % 8) as nat) % 4)
            } else {
                coverage == 255 * (byte as nat / pow2((7 - bit % 8) as nat) % 2)
            }
        }),
{
    let bpp: nat = mask.bpp as nat;
    if !mask.is_packed {
        assert(row == next_multiple_of_8(width * bpp));
    }
    let bit: nat = mask.bit(x, y, width);
    lemma2_to64();
    lemma_valid_depth_is_readable(mask, x, y, width);
    if bit / 8 < mask.data.len() {
        let byte: nat = mask.data[(bit / 8) as int] as nat;
        let above: nat = byte / pow2((8 - bpp - bit % 8) as nat);
        vstd::arithmetic::div_mod::lemma_mod_bound(above as int, pow2(bpp) as int);
        law_coverage_steps_are_even(above % pow2(bpp), bpp);
        if bpp == 8 {
            assert(bit % 8 == 0);
            assert(byte / 1 == byte && byte % 256 == byte);
        } else if bpp == 4 {
            lemma_bits_are_whole_pixels(mask, x, y, width);
            assert(bit % 8 == 0 || bit % 8 == 4);
            assert(byte / 16 % 16 == byte / 16);
            assert(byte / 1 == byte);
        }
    }
}

/// Pixels of a valid bit depth start at multiples of it.
proof fn lemma_bits_are_whole_pixels(mask: MaskView, x: nat, y: nat, width: nat)
    requires
        mask.bpp == 4,
    ensures
        mask.bit(x, y, width) % 4 == 0,
{
    let pixel: nat = y * width + x;
    let bytes: nat = (width * 4 + 7) / 8;
    assert(y * (bytes * 8) == (y * bytes) * 8) by (nonlinear_arith);
}

/// Pixel `i` of those in a byte.
proof fn lemma_pixel_within_byte(mask: MaskView, x: nat, y: nat, width: nat, at: nat, i: nat)
    requires
        mask.bpp == 1 || mask.bpp == 2 || mask.bpp == 4 || mask.bpp == 8,
        mask.bit(x, y, width) == 8 * at,
        at < mask.data.len(),
        i * mask.bpp < 8,
    ensures
        ({
            let byte = mask.data[at as int] as nat;
            let coverage = mask.coverage(x + i, y, width);
            &&& mask.bpp == 8 ==> coverage == byte
            &&& mask.bpp == 4 ==> coverage == 17 * (if i == 0 {
                byte / 16
            } else {
                byte % 16
            })
            &&& mask.bpp == 2 ==> coverage == 85 * (byte / pow2((6 - 2 * i) as nat) % 4)
            &&& mask.bpp == 1 ==> coverage == 255 * (byte / pow2((7 - i) as nat) % 2)
        }),
{
    let bpp: nat = mask.bpp as nat;
    let row: nat = next_multiple_of_8(width * bpp);
    assert((y * width + (x + i)) * bpp == (y * width + x) * bpp + i * bpp) by (nonlinear_arith);
    assert((x + i) * bpp == x * bpp + i * bpp) by (nonlinear_arith);
    assert(mask.bit(x + i, y, width) == 8 * at + i * bpp);
    assert(bpp == 8 ==> i * bpp == 8 * i) by (nonlinear_arith);
    assert(bpp == 4 ==> i * bpp == 4 * i) by (nonlinear_arith);
    assert(bpp == 2 ==> i * bpp == 2 * i) by (nonlinear_arith);
    assert(bpp == 1 ==> i * bpp == i) by (nonlinear_arith);
    law_pixels_are_read_from_their_own_bits(mask, x + i, y, width, row);
    assert((8 * at + i * bpp) / 8 == at);
}

/// The bytes of a mask can be put together again from the coverage of the pixels
/// in them, the first of which is the most significant.
pub proof fn law_pixels_make_up_their_byte(mask: MaskView, x: nat, y: nat, width: nat, at: nat)
    requires
        mask.bpp == 1 || mask.bpp == 2 || mask.bpp == 4 || mask.bpp == 8,
        mask.bit(x, y, width) == 8 * at,
        at < mask.data.len(),
    ensures
        ({
            let byte: int = mask.data[at as int] as int;
            let c = |i: nat| mask.coverage(x + i, y, width) as int;
            &&& mask.bpp == 8 ==> byte == c(0)
            &&& mask.bpp == 4 ==> 17 * byte == 16 * c(0) + c(1)
            &&& mask.bpp == 2 ==> 85 * byte == 64 * c(0) + 16 * c(1) + 4 * c(2) + c(3)
            &&& mask.bpp == 1 ==> 255 * byte == 128 * c(0) + 64 * c(1) + 32 * c(2) + 16 * c(3) + 8
                * c(4) + 4 * c(5) + 2 * c(6) + c(7)
        }),
{
    let byte: u8 = mask.data[at as int];
    lemma2_to64();
    lemma_pixel_within_byte(mask, x, y, width, at, 0);
    if mask.bpp == 4 {
        lemma_pixel_within_byte(mask, x, y, width, at, 1);
    } else if mask.bpp == 2 {
        lemma_pixel_within_byte(mask, x, y, width, at, 1);
        lemma_pixel_within_byte(mask, x, y, width, at, 2);
        lemma_pixel_within_byte(mask, x, y, width, at, 3);
        assert(byte == 64 * (byte / 64 % 4) + 16 * (byte / 16 % 4) + 4 * (byte / 4 % 4) + byte / 1
            % 4) by (bit_vector);
    } else if mask.bpp == 1 {
        lemma_pixel_within_byte(mask, x, y, width, at, 1);
        lemma_pixel_within_byte(mask, x, y, width, at, 2);
        lemma_pixel_within_byte(mask, x, y, width, at, 3);
        lemma_pixel_within_byte(mask, x, y, width, at, 4);
        lemma_pixel_within_byte(mask, x, y, width, at, 5);
        lemma_pixel_within_byte(mask, x, y, width, at, 6);
        lemma_pixel_within_byte(mask, x, y, width, at, 7);
        assert(byte == 128 * (byte / 128 % 2) + 64 * (byte / 64 % 2) + 32 * (byte / 32 % 2) + 16 * (
        byte / 16 % 2) + 8 * (byte / 8 % 2) + 4 * (byte / 4 % 2) + 2 * (byte / 2 % 2) + byte / 1
            % 2) by (bit_vector);
    }
}

/// The image of a mask holds its pixels row by row, four bytes each: the fill
/// color, and the coverage times the opacity, rounded down to a byte.
pub proof fn law_mask_image_is_the_fill_under_the_mask(
    mask: MaskView,
    width: u32,
    height: u32,
    color: Color,
    opacity: u8,
    x: u32,
    y: u32,
)
    requires
        mask.bpp == 1 || mask.bpp == 2 || mask.bpp == 4 || mask.bpp == 8,
        x < width,
        y < height,
    ensures
        ({
            let image = mask_rgba(mask, width, height, color, opacity);
            let at = 4 * (y * width + x);
            let coverage = mask.coverage(x as nat, y as nat, width as nat);
            &&& image.len() == 4 * (width * height)
            &&& 0 <= at && at + 4 <= image.len()
            &&& image[at] == color.red
            &&& image[at + 1] == color.green
            &&& image[at + 2] == color.blue
            &&& 255 * image[at + 3] <= coverage * opacity < 255 * image[at + 3] + 255
        }),
{
    let pixel: nat = (y * width + x) as nat;
    assert(0 <= y * width && y * width + x < width * height) by (nonlinear_arith)
        requires
            0 <= x < width,
            0 <= y < height,
    ;
    vstd::arithmetic::div_mod::lemma_fundamental_div_mod_converse(
        pixel as int,
        width as int,
        y as int,
        x as int,
    );
    lemma_valid_depth_is_readable(mask, x as nat, y as nat, width as nat);
    lemma_coverage_fits(mask, x as nat, y as nat, width as nat);
    let coverage: nat = mask.coverage(x as nat, y as nat, width as nat);
    assert(0 <= coverage * opacity <= 255 * 255) by (nonlinear_arith)
        requires
            0 <= coverage <= 255,
            0 <= opacity <= 255,
    ;
    assert((4 * pixel + 3) / 4 == pixel && (4 * pixel + 3) % 4 == 3);
}

/// The image of premultiplied BGRA holds its pixels in their order, four bytes
/// each. The channels come as red, green, blue and alpha. The alpha stays as it
/// is. A color is divided by it, rounded down and never above a full byte; there
/// is none in a transparent pixel.
pub proof fn law_bgra_image_is_straight(
    data: Seq<u8>,
    width: u32,
    height: u32,
    pixel: nat,
    channel: nat,
)
    requires
        pixel < width * height,
        channel < 3,
    ensures
        ({
            let image = bgra_rgba(data, width, height);
            let alpha = data[(4 * pixel + 3) as int];
            let premultiplied = data[4 * pixel + 2 - channel];
            let straight = image[(4 * pixel + channel) as int];
            &&& image.len() == 4 * (width * height)
            &&& image[(4 * pixel + 3) as int] == alpha
            &&& alpha == 0 ==> straight == 0
            &&& premultiplied > alpha > 0 ==> straight == 255
            &&& premultiplied <= alpha && alpha > 0 ==> alpha * straight <= 255 * premultiplied
                < alpha * straight + alpha
        }),
{
    let at: nat = 4 * pixel + channel;
    assert(at / 4 == pixel && at % 4 == channel);
    assert((4 * pixel + 3) / 4 == pixel && (4 * pixel + 3) % 4 == 3);
    let a: int = data[(4 * pixel + 3) as int] as int;
    let c: int = data[4 * pixel + 2 - channel] as int;
    if a > 0 {
        let s: int = c * 255 / a;
        vstd::arithmetic::div_mod::lemma_fundamental_div_mod(c * 255, a);
        vstd::arithmetic::div_mod::lemma_mod_bound(c * 255, a);
        assert(c <= a ==> s <= 255) by (nonlinear_arith)
            requires
                a > 0,
                a * s <= 255 * c,
        ;
        assert(c > a ==> s >= 255) by (nonlinear_arith)
            requires
                a > 0,
                a * s + a > 255 * c,
        ;
        assert(s >= 0) by (nonlinear_arith)
            requires
                a > 0,
                c >= 0,
                a * s + a > 255 * c,
        ;
    }
}

/// What a mask is said to hold is what it holds.
pub proof fn law_mask_view_is_faithful(mask: MaskData)
    ensures
        mask_view(mask).bpp == mask.bpp,
        mask_view(mask).is_packed == mask.is_packed,
        mask_view(mask).data == mask.data@,
{
}

} // verus!
