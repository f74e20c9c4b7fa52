//! The plain-text pixel stream (plain PPM): a header, then one `r g b` line per pixel.
use vstd::prelude::*;

verus! {

/// ASCII `0`; the digit `d` is `ASCII_ZERO + d`.
pub const ASCII_ZERO: u8 = 48;

/// ASCII space, between the numbers of a line.
pub const ASCII_SPACE: u8 = 32;

/// ASCII line feed, at the end of each line.
pub const ASCII_NEWLINE: u8 = 10;

/// The two bytes of the plain-PPM magic number, ASCII `P` and `3`.
pub const MAGIC_LETTER: u8 = 80;

pub const MAGIC_DIGIT: u8 = 51;

/// The largest channel value, announced in the header.
pub const MAX_CHANNEL: u32 = 255;

/// The decimal digits of `n`, most significant first, without leading zeros.
pub open spec fn decimal(n: nat) -> Seq<u8>
    decreases n,
{
    if n < 10 {
        seq![(ASCII_ZERO + n) as u8]
    } else {
        decimal(n / 10).push((ASCII_ZERO + n % 10) as u8)
    }
}

/// The line of one pixel: its three channels in decimal, separated by spaces.
pub open spec fn color_line(r: u8, g: u8, b: u8) -> Seq<u8> {
    decimal(r as nat) + seq![ASCII_SPACE] + decimal(g as nat) + seq![ASCII_SPACE] + decimal(
        b as nat,
    ) + seq![ASCII_NEWLINE]
}

/// The header: the magic number, then `width height`, then the largest channel value,
/// one per line.
pub open spec fn header(width: u32, height: u32) -> Seq<u8> {
    seq![MAGIC_LETTER, MAGIC_DIGIT, ASCII_NEWLINE] + decimal(width as nat) + seq![ASCII_SPACE] + decimal(
        height as nat,
    ) + seq![ASCII_NEWLINE] + decimal(MAX_CHANNEL as nat) + seq![ASCII_NEWLINE]
}

/// The lines of the pixels, in the order given.
pub open spec fn pixel_lines(pixels: Seq<(u8, u8, u8)>) -> Seq<u8>
    decreases pixels.len(),
{
    if pixels.len() == 0 {
        Seq::empty()
    } else {
        let p = pixels.last();
        pixel_lines(pixels.drop_last()) + color_line(p.0, p.1, p.2)
    }
}

/// The whole stream of an image of `width` by `height` pixels in row-major order.
pub open spec fn image_stream(width: u32, height: u32, pixels: Seq<(u8, u8, u8)>) -> Seq<u8> {
    header(width, height) + pixel_lines(pixels)
}

/// Appends the decimal digits of `n`.
fn push_decimal(out: &mut Vec<u8>, n: u32)
    ensures
        final(out)@ == old(out)@ + decimal(n as nat),
    decreases n,
{
    if n >= 10 {
        push_decimal(out, n / 10);
    }
    out.push(ASCII_ZERO + (n % 10) as u8);
    assert(n < 10 ==> n % 10 == n);
}

/// Appends the line of one pixel whose channels are `r`, `g` and `b`.
pub fn write_color(out: &mut Vec<u8>, r: u8, g: u8, b: u8)
    ensures
        final(out)@ == old(out)@ + color_line(r, g, b),
{
    push_decimal(out, r as u32);
    out.push(ASCII_SPACE);
    push_decimal(out, g as u32);
    out.push(ASCII_SPACE);
    push_decimal(out, b as u32);
    out.push(ASCII_NEWLINE);
    assert(final(out)@ =~= old(out)@ + color_line(r, g, b));
}

/// Appends the header of an image of `width` by `height` pixels.
pub fn write_header(out: &mut Vec<u8>, width: u32, height: u32)
    ensures
        final(out)@ == old(out)@ + header(width, height),
{
    out.push(MAGIC_LETTER);
    out.push(MAGIC_DIGIT);
    out.push(ASCII_NEWLINE);
    push_decimal(out, width);
    out.push(ASCII_SPACE);
    push_decimal(out, height);
    out.push(ASCII_NEWLINE);
    push_decimal(out, MAX_CHANNEL);
    out.push(ASCII_NEWLINE);
    assert(final(out)@ =~= old(out)@ + header(width, height));
}

/// Appends the stream of an image: the header, then each pixel's line in row-major order.
pub fn write_image(out: &mut Vec<u8>, width: u32, height: u32, pixels: &Vec<(u8, u8, u8)>)
    requires
        pixels@.len() == width as int * height as int,
    ensures
        final(out)@ == old(out)@ + image_stream(width, height, pixels@),
{
    let ghost start = out@;
    write_header(out, width, height);
    let mut i: usize = 0;
    while i < pixels.len()
        invariant
            i <= pixels@.len(),
            out@ == start + header(width, height) + pixel_lines(pixels@.take(i as int)),
        decreases pixels@.len() - i,
    {
        let p = pixels[i];
        write_color(out, p.0, p.1, p.2);
        assert(pixels@.take(i as int + 1).drop_last() =~= pixels@.take(i as int));
        i = i + 1;
    }
    assert(pixels@.take(i as int) =~= pixels@);
    assert(out@ =~= start + image_stream(width, height, pixels@));
}

} // verus!
