//! From colours to the text of a plain PPM image.
//!
//! A channel is written as the whole number of 256ths that fit into it,
//! after it has been clamped to the range from 0 to 0.9999. Multiples of
//! 1/256 are doubles, so that number can be had by comparing alone: it is
//! the count of the multiples 1/256, 2/256, ..., 255/256 that do not exceed
//! the channel.

use vstd::prelude::*;
use crate::scalar::Scalar;
use crate::vec3::Color;

verus! {

/// The byte of the digit `d`.
pub open spec fn digit(d: int) -> u8 {
    (48 + d) as u8
}

/// `n` in decimal, as ASCII bytes, without leading zeros.
pub open spec fn decimal(n: nat) -> Seq<u8>
    decreases n,
{
    if n < 10 {
        seq![digit(n as int)]
    } else {
        decimal(n / 10).push(digit((n % 10) as int))
    }
}

/// The rank of `k / 256`, for `k` from 0 to 255.
pub open spec fn level(k: int) -> int {
    if k < 1 {
        0
    } else if k < 2 {
        0x3f70_0000_0000_0000 + (k - 1) * 0x0010_0000_0000_0000
    } else if k < 4 {
        0x3f80_0000_0000_0000 + (k - 2) * 0x0008_0000_0000_0000
    } else if k < 8 {
        0x3f90_0000_0000_0000 + (k - 4) * 0x0004_0000_0000_0000
    } else if k < 16 {
        0x3fa0_0000_0000_0000 + (k - 8) * 0x0002_0000_0000_0000
    } else if k < 32 {
        0x3fb0_0000_0000_0000 + (k - 16) * 0x0001_0000_0000_0000
    } else if k < 64 {
        0x3fc0_0000_0000_0000 + (k - 32) * 0x0000_8000_0000_0000
    } else if k < 128 {
        0x3fd0_0000_0000_0000 + (k - 64) * 0x0000_4000_0000_0000
    } else {
        0x3fe0_0000_0000_0000 + (k - 128) * 0x0000_2000_0000_0000
    }
}

/// How many of the multiples `1/256`, ..., `n/256` do not exceed the number
/// of rank `g`.
pub open spec fn levels_within(g: int, n: int) -> int
    decreases n,
{
    if n <= 0 {
        0
    } else {
        levels_within(g, n - 1) + if level(n) <= g {
            1int
        } else {
            0int
        }
    }
}

/// The integer written for a channel of rank `g`: the whole number of
/// 256ths in it, 255 at most.
pub open spec fn quantized(g: Scalar) -> int {
    levels_within(g as int, 255)
}

/// The line of text of one pixel: the three channels in decimal, a space
/// between them and a line feed after them.
pub open spec fn pixel_line(r: nat, g: nat, b: nat) -> Seq<u8> {
    decimal(r) + seq![32u8] + decimal(g) + seq![32u8] + decimal(b) + seq![10u8]
}

/// The header of a plain PPM image of the given size, with 255 as the
/// largest channel value.
pub open spec fn header(width: nat, height: nat) -> Seq<u8> {
    seq![80u8, 51u8, 10u8] + decimal(width) + seq![32u8] + decimal(height) + seq![
        10u8,
        50u8,
        53u8,
        53u8,
        10u8,
    ]
}

/// The multiples of 1/256 grow with their numerator.
pub proof fn lemma_level_increasing(j: int, k: int)
    requires
        0 <= j < k <= 255,
    ensures
        0 <= level(j) < level(k) < crate::scalar::ONE,
{
}

/// The count of levels that do not exceed `g` is the largest numerator
/// whose level does not exceed `g`.
pub proof fn lemma_levels_within(g: int, n: int)
    requires
        0 <= n <= 255,
    ensures
        0 <= levels_within(g, n) <= n,
        forall|k: int| 1 <= k <= n ==> (k <= levels_within(g, n) <==> #[trigger] level(k) <= g),
    decreases n,
{
    if n > 0 {
        lemma_levels_within(g, n - 1);
        let c = levels_within(g, n - 1);
        assert forall|k: int| 1 <= k <= n implies (k <= levels_within(g, n) <==> #[trigger] level(k)
            <= g) by {
            if k < n {
                lemma_level_increasing(k, n);
            }
            if c >= 1 && c < n {
                lemma_level_increasing(c, n);
            }
            if c < n - 1 {
                assert(!(level(c + 1) <= g));
                lemma_level_increasing(c + 1, n);
            }
        }
    }
}

/// The rank of `k / 256`.
pub fn level_of(k: u8) -> (r: Scalar)
    ensures
        r == level(k as int),
{
    let k: i64 = k as i64;
    if k < 1 {
        0
    } else if k < 2 {
        0x3f70_0000_0000_0000 + (k - 1) * 0x0010_0000_0000_0000
    } else if k < 4 {
        0x3f80_0000_0000_0000 + (k - 2) * 0x0008_0000_0000_0000
    } else if k < 8 {
        0x3f90_0000_0000_0000 + (k - 4) * 0x0004_0000_0000_0000
    } else if k < 16 {
        0x3fa0_0000_0000_0000 + (k - 8) * 0x0002_0000_0000_0000
    } else if k < 32 {
        0x3fb0_0000_0000_0000 + (k - 16) * 0x0001_0000_0000_0000
    } else if k < 64 {
        0x3fc0_0000_0000_0000 + (k - 32) * 0x0000_8000_0000_0000
    } else if k < 128 {
        0x3fd0_0000_0000_0000 + (k - 64) * 0x0000_4000_0000_0000
    } else {
        0x3fe0_0000_0000_0000 + (k - 128) * 0x0000_2000_0000_0000
    }
}

/// The integer written for a channel.
pub fn quantize(g: Scalar) -> (r: u8)
    ensures
        r == quantized(g),
        forall|k: int| 1 <= k <= 255 ==> (k <= r <==> #[trigger] level(k) <= g),
{
    let mut r: u8 = 0;
    let mut k: u8 = 0;
    while k < 255
        invariant
            k <= 255,
            r <= k,
            r == levels_within(g as int, k as int),
        decreases 255 - k,
    {
        k += 1;
        if level_of(k) <= g {
            r += 1;
        }
    }
    proof {
        lemma_levels_within(g as int, 255);
    }
    r
}

/// Appends `n` in decimal.
pub fn write_decimal(writer: &mut Vec<u8>, n: u32)
    ensures
        final(writer)@ == old(writer)@ + decimal(n as nat),
    decreases n,
{
    if n >= 10 {
        write_decimal(writer, n / 10);
    }
    let d: u8 = 48 + (n % 10) as u8;
    writer.push(d);
    proof {
        if n >= 10 {
            assert(writer@ =~= old(writer)@ + decimal((n / 10) as nat).push(
                digit((n % 10) as int),
            ));
        } else {
            assert(writer@ =~= old(writer)@ + seq![digit(n as int)]);
        }
    }
}

/// Appends the header of a plain PPM image.
pub fn write_header(writer: &mut Vec<u8>, width: u32, height: u32)
    ensures
        final(writer)@ == old(writer)@ + header(width as nat, height as nat),
{
    writer.push(80);
    writer.push(51);
    writer.push(10);
    write_decimal(writer, width);
    writer.push(32);
    write_decimal(writer, height);
    writer.push(10);
    writer.push(50);
    writer.push(53);
    writer.push(53);
    writer.push(10);
    assert(writer@ =~= old(writer)@ + header(width as nat, height as nat));
}

/// Appends the line of one pixel. The colour comes gamma-encoded: each
/// channel is the square root of the linear one.
pub fn write_color(writer: &mut Vec<u8>, c: &Color)
    ensures
        final(writer)@ == old(writer)@ + pixel_line(
            quantized(c.x) as nat,
            quantized(c.y) as nat,
            quantized(c.z) as nat,
        ),
{
    let r = quantize(c.x);
    let g = quantize(c.y);
    let b = quantize(c.z);
    write_decimal(writer, r as u32);
    writer.push(32);
    write_decimal(writer, g as u32);
    writer.push(32);
    write_decimal(writer, b as u32);
    writer.push(10);
    assert(writer@ =~= old(writer)@ + pixel_line(r as nat, g as nat, b as nat));
}

/// The lines of the first `n` of `pixels`, in their order.
pub open spec fn pixel_lines(pixels: Seq<Color>, n: int) -> Seq<u8>
    decreases n,
{
    if n <= 0 {
        Seq::empty()
    } else {
        pixel_lines(pixels, n - 1) + pixel_line(
            quantized(pixels[n - 1].x) as nat,
            quantized(pixels[n - 1].y) as nat,
            quantized(pixels[n - 1].z) as nat,
        )
    }
}

/// Appends a whole image: the header, then one line per pixel, the rows
/// from the top and each row from the left. The colours come
/// gamma-encoded.
pub fn write_image(writer: &mut Vec<u8>, width: u32, height: u32, pixels: &Vec<Color>)
    requires
        pixels@.len() == width * height,
    ensures
        final(writer)@ == old(writer)@ + header(width as nat, height as nat) + pixel_lines(
            pixels@,
            pixels@.len() as int,
        ),
{
    write_header(writer, width, height);
    let ghost start = writer@;
    let mut i: usize = 0;
    while i < pixels.len()
        invariant
            i <= pixels@.len(),
            writer@ == start + pixel_lines(pixels@, i as int),
        decreases pixels@.len() - i,
    {
        let ghost before = writer@;
        write_color(writer, &pixels[i]);
        i += 1;
        assert(writer@ =~= start + pixel_lines(pixels@, i as int));
    }
}

} // verus!
