use vstd::prelude::*;
use crate::settings::RenderSettings;

verus! {

/// ASCII codes of the characters that the format uses.
pub const DIGIT_ZERO: u8 = 48;
pub const DIGIT_TWO: u8 = 50;
pub const DIGIT_THREE: u8 = 51;
pub const DIGIT_FIVE: u8 = 53;
pub const LETTER_P: u8 = 80;
pub const SPACE: u8 = 32;
pub const NEWLINE: u8 = 10;

/// A pixel's color as three 8-bit channel values.
#[derive(Clone, Copy, Debug, PartialEq, Eq, Structural)]
pub struct Rgb8 {
    pub r: u8,
    pub g: u8,
    pub b: u8,
}

/// Why an image could not be encoded.
#[derive(Clone, Copy, Debug, PartialEq, Eq, Structural)]
pub enum PpmError {
    /// The number of pixels differs from width times height.
    SizeMismatch,
}

/// ASCII decimal digits of `n`, most significant first, without leading zeros.
pub open spec fn decimal(n: nat) -> Seq<u8>
    decreases n,
{
    if n < 10 {
        seq![(DIGIT_ZERO + n) as u8]
    } else {
        decimal(n / 10) + seq![(DIGIT_ZERO + n % 10) as u8]
    }
}

/// `P3`, the width and the height, and the largest channel value, one per line
/// but for width and height, which share one.
pub open spec fn header_text(width: nat, height: nat) -> Seq<u8> {
    seq![LETTER_P, DIGIT_THREE, NEWLINE] + decimal(width) + seq![SPACE] + decimal(height) + seq![
        NEWLINE,
        DIGIT_TWO,
        DIGIT_FIVE,
        DIGIT_FIVE,
        NEWLINE,
    ]
}

/// One line per pixel: its three channel values, separated by spaces.
pub open spec fn pixel_text(p: Rgb8) -> Seq<u8> {
    decimal(p.r as nat) + seq![SPACE] + decimal(p.g as nat) + seq![SPACE] + decimal(p.b as nat)
        + seq![NEWLINE]
}

/// The lines of `pixels`, in order.
pub open spec fn pixels_text(pixels: Seq<Rgb8>) -> Seq<u8>
    decreases pixels.len(),
{
    if pixels.len() == 0 {
        Seq::empty()
    } else {
        pixels_text(pixels.drop_last()) + pixel_text(pixels.last())
    }
}

/// A plain-text PPM image: the header, then the pixels in buffer order.
pub open spec fn image_text(width: nat, height: nat, pixels: Seq<Rgb8>) -> Seq<u8> {
    header_text(width, height) + pixels_text(pixels)
}

/// Appends the decimal digits of `n`.
fn push_decimal(out: &mut Vec<u8>, n: usize)
    ensures
        final(out)@ == old(out)@ + decimal(n as nat),
    decreases n,
{
    let ghost start = out@;
    if n >= 10 {
        push_decimal(out, n / 10);
    }
    out.push(DIGIT_ZERO + (n % 10) as u8);
    proof {
        if n >= 10 {
            assert(out@ =~= start + decimal(n as nat));
        } else {
            assert(out@ =~= start + decimal(n as nat));
        }
    }
}

/// Appends the header of a `width` by `height` image.
fn push_header(out: &mut Vec<u8>, width: usize, height: usize)
    ensures
        final(out)@ == old(out)@ + header_text(width as nat, height as nat),
{
    let ghost start = out@;
    out.push(LETTER_P);
    out.push(DIGIT_THREE);
    out.push(NEWLINE);
    push_decimal(out, width);
    out.push(SPACE);
    push_decimal(out, height);
    out.push(NEWLINE);
    out.push(DIGIT_TWO);
    out.push(DIGIT_FIVE);
    out.push(DIGIT_FIVE);
    out.push(NEWLINE);
    assert(out@ =~= start + header_text(width as nat, height as nat));
}

/// Appends the line of one pixel.
fn push_pixel(out: &mut Vec<u8>, p: Rgb8)
    ensures
        final(out)@ == old(out)@ + pixel_text(p),
{
    let ghost start = out@;
    push_decimal(out, p.r as usize);
    out.push(SPACE);
    push_decimal(out, p.g as usize);
    out.push(SPACE);
    push_decimal(out, p.b as usize);
    out.push(NEWLINE);
    assert(out@ =~= start + pixel_text(p));
}

/// The header of a plain-text PPM image `width` pixels wide and `height` high.
pub fn header(width: usize, height: usize) -> (r: Vec<u8>)
    ensures
        r@ == header_text(width as nat, height as nat),
{
    let mut out: Vec<u8> = Vec::new();
    push_header(&mut out, width, height);
    assert(out@ =~= header_text(width as nat, height as nat));
    out
}

/// The line of one pixel in a plain-text PPM image.
pub fn pixel_line(p: Rgb8) -> (r: Vec<u8>)
    ensures
        r@ == pixel_text(p),
{
    let mut out: Vec<u8> = Vec::new();
    push_pixel(&mut out, p);
    assert(out@ =~= pixel_text(p));
    out
}

/// The whole image as plain-text PPM, given its pixels in buffer order (top
/// scanline first, each from left to right).
pub fn encode_image(settings: &RenderSettings, pixels: &Vec<Rgb8>) -> (r: Result<
    Vec<u8>,
    PpmError,
>)
    ensures
        pixels@.len() != settings.width * settings.height ==> r == Err::<Vec<u8>, PpmError>(
            PpmError::SizeMismatch,
        ),
        pixels@.len() == settings.width * settings.height ==> r is Ok && r->Ok_0@ == image_text(
            settings.width as nat,
            settings.height as nat,
            pixels@,
        ),
{
    let count = pixels.len();
    match settings.width.checked_mul(settings.height) {
        Some(n) => {
            if n != count {
                return Err(PpmError::SizeMismatch);
            }
        },
        None => {
            return Err(PpmError::SizeMismatch);
        },
    }
    let mut out: Vec<u8> = Vec::new();
    push_header(&mut out, settings.width, settings.height);
    let mut i: usize = 0;
    while i < pixels.len()
        invariant
            i <= pixels@.len(),
            out@ == header_text(settings.width as nat, settings.height as nat) + pixels_text(
                pixels@.subrange(0, i as int),
            ),
        decreases pixels@.len() - i,
    {
        let ghost before = out@;
        push_pixel(&mut out, pixels[i]);
        proof {
            let next = pixels@.subrange(0, i + 1);
            assert(next.drop_last() =~= pixels@.subrange(0, i as int));
            assert(next.last() == pixels@[i as int]);
            assert(out@ =~= header_text(settings.width as nat, settings.height as nat)
                + pixels_text(next));
        }
        i = i + 1;
    }
    assert(pixels@.subrange(0, pixels@.len() as int) =~= pixels@);
    Ok(out)
}

} // verus!
