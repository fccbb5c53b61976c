//! Plain-text PPM framing of an image whose channels have already
//! been quantised to eight bits.
use vstd::prelude::*;

use crate::raster::MathUtil;

verus! {

/// Relies on `String::push`: the character is appended at the end.
pub assume_specification[ String::push ](s: &mut String, ch: char)
    ensures
        final(s)@ == old(s)@.push(ch),
;

/// The character of a decimal digit.
pub open spec fn digit_char(d: nat) -> char
    recommends
        d < 10,
{
    // 48 is the code of '0'; the ten digits follow it in order.
    ((48 + d) as u8) as char
}

/// Decimal notation of `n`, without sign or leading zeros.
pub open spec fn decimal(n: nat) -> Seq<char>
    decreases n,
{
    if n < 10 {
        seq![digit_char(n)]
    } else {
        decimal(n / 10).push(digit_char(n % 10))
    }
}

/// One pixel line: `"R G B\n"`.
pub open spec fn color_line(r: u8, g: u8, b: u8) -> Seq<char> {
    decimal(r as nat) + seq![' '] + decimal(g as nat) + seq![' '] + decimal(b as nat) + seq!['\n']
}

/// The header: magic `P3`, the dimensions and the largest channel value.
pub open spec fn ppm_header(width: u32, height: u32) -> Seq<char> {
    seq!['P', '3', '\n'] + decimal(width as nat) + seq![' '] + decimal(height as nat) + seq![
        '\n',
        '2',
        '5',
        '5',
        '\n',
    ]
}

/// The pixel lines of `pixels`, in order.
pub open spec fn ppm_body(pixels: Seq<(u8, u8, u8)>) -> Seq<char>
    decreases pixels.len(),
{
    if pixels.len() == 0 {
        Seq::empty()
    } else {
        let p = pixels.last();
        ppm_body(pixels.drop_last()) + color_line(p.0, p.1, p.2)
    }
}

/// The whole file.
pub open spec fn ppm_text(pixels: Seq<(u8, u8, u8)>, width: u32, height: u32) -> Seq<char> {
    ppm_header(width, height) + ppm_body(pixels)
}

fn push_digit(s: &mut String, d: u32)
    requires
        d < 10,
    ensures
        final(s)@ == old(s)@.push(digit_char(d as nat)),
{
    // 48 is the code of '0'.
    s.push((48 + d as u8) as char);
}

/// Appends the decimal notation of `n`.
pub fn push_decimal(s: &mut String, n: u32)
    ensures
        final(s)@ == old(s)@ + decimal(n as nat),
    decreases n,
{
    if n >= 10 {
        push_decimal(s, n / 10);
        push_digit(s, n % 10);
        assert(final(s)@ =~= old(s)@ + decimal(n as nat));
    } else {
        push_digit(s, n);
        assert(final(s)@ =~= old(s)@ + decimal(n as nat));
    }
}

/// Text output of colors.
pub struct ColorUtil;

impl ColorUtil {
    /// The PPM line of one pixel, `"R G B\n"`.
    pub fn get_color_str(r: u8, g: u8, b: u8) -> (s: String)
        ensures
            s@ == color_line(r, g, b),
    {
        let mut s = String::new();
        push_color(&mut s, r, g, b);
        assert(s@ =~= color_line(r, g, b));
        s
    }
}

fn push_color(s: &mut String, r: u8, g: u8, b: u8)
    ensures
        final(s)@ =~= old(s)@ + color_line(r, g, b),
{
    push_decimal(s, r as u32);
    s.push(' ');
    push_decimal(s, g as u32);
    s.push(' ');
    push_decimal(s, b as u32);
    s.push('\n');
}

/// Assembly of finished images.
pub struct ImageUtil;

impl ImageUtil {
    /// The PPM text of a `width` x `height` image given as its pixels in
    /// row-major order.
    pub fn get_ppm_image(pixels: &Vec<(u8, u8, u8)>, width: u32, height: u32) -> (s: String)
        requires
            pixels@.len() == width * height,
        ensures
            s@ == ppm_text(pixels@, width, height),
    {
        let n = pixels.len();
        let mut s = String::new();
        s.push('P');
        s.push('3');
        s.push('\n');
        push_decimal(&mut s, width);
        s.push(' ');
        push_decimal(&mut s, height);
        s.push('\n');
        s.push('2');
        s.push('5');
        s.push('5');
        s.push('\n');
        assert(s@ =~= ppm_header(width, height));
        let mut j: u32 = 0;
        while j < height
            invariant
                j <= height,
                pixels@.len() == width * height,
                n == pixels@.len(),
                s@ == ppm_header(width, height) + ppm_body(pixels@.take(j * width)),
            decreases height - j,
        {
            let mut i: u32 = 0;
            while i < width
                invariant
                    i <= width,
                    j < height,
                    pixels@.len() == width * height,
                    n == pixels@.len(),
                    s@ == ppm_header(width, height) + ppm_body(pixels@.take(j * width + i)),
                decreases width - i,
            {
                proof {
                    assert(j * width + i < width * height && (j + 1) * width <= width * height)
                        by (nonlinear_arith)
                        requires
                            i < width,
                            j < height,
                    ;
                }
                let k = MathUtil::pixel_index(i, j, width);
                let p = pixels[k];
                push_color(&mut s, p.0, p.1, p.2);
                proof {
                    let t = pixels@.take(k + 1);
                    assert(t.drop_last() =~= pixels@.take(k as int));
                    assert(t.last() == p);
                    assert(s@ =~= ppm_header(width, height) + ppm_body(t));
                }
                i = i + 1;
            }
            proof {
                assert((j + 1) * width == j * width + width) by (nonlinear_arith);
            }
            j = j + 1;
        }
        proof {
            assert(j * width == width * height) by (nonlinear_arith)
                requires
                    j == height,
            ;
            assert(pixels@.take(j * width) =~= pixels@);
        }
        s
    }
}

} // verus!
