//! Encoding of a grid of quantised pixels as a plain-text "P3" image.
//!
//! The text is: the marker `P3`, a line `<width> <height>`, a line `255`,
//! then one line per row, top to bottom, in which each pixel contributes
//! `red green blue ` as decimal integers.
use vstd::prelude::*;

use crate::canvas::Canvas;

verus! {

/// ASCII `0`; the digit `d` is written `DIGIT_ZERO + d`.
pub const DIGIT_ZERO: u8 = 48;

/// ASCII space, written after every channel value.
pub const SPACE: u8 = 32;

/// ASCII line feed, ending every line.
pub const NEWLINE: u8 = 10;

/// ASCII `P`, first byte of the format marker `P3`.
pub const MARKER_P: u8 = 80;

/// ASCII `3`, second byte of the format marker `P3`.
pub const MARKER_3: u8 = 51;

/// The largest channel value, stated in the header.
pub const MAX_CHANNEL: u8 = 255;

/// A pixel whose channels are already in the image's 0..=255 range.
#[derive(Clone, Copy, Debug, PartialEq, Eq, Structural)]
pub struct Rgb8 {
    pub red: u8,
    pub green: u8,
    pub blue: u8,
}

/// ASCII decimal digits of `n`, most significant first, without leading zeros.
pub open spec fn decimal(n: nat) -> Seq<u8>
    decreases n,
{
    if n < 10 {
        seq![(DIGIT_ZERO + n) as u8]
    } else {
        decimal(n / 10) + seq![(DIGIT_ZERO + n % 10) as u8]
    }
}

/// The text of one pixel: its three channels, each followed by a space.
pub open spec fn pixel_text(p: Rgb8) -> Seq<u8> {
    decimal(p.red as nat) + seq![SPACE] + decimal(p.green as nat) + seq![SPACE] + decimal(
        p.blue as nat,
    ) + seq![SPACE]
}

/// The texts of `s`'s pixels, one after the other.
pub open spec fn pixels_text(s: Seq<Rgb8>) -> Seq<u8>
    decreases s.len(),
{
    if s.len() == 0 {
        seq![]
    } else {
        pixels_text(s.drop_last()) + pixel_text(s.last())
    }
}

/// The lines of the first `n` rows of a row-major grid `width` cells wide.
pub open spec fn rows_text(cells: Seq<Rgb8>, width: nat, n: nat) -> Seq<u8>
    decreases n,
{
    if n == 0 {
        seq![]
    } else {
        rows_text(cells, width, (n - 1) as nat) + pixels_text(
            cells.subrange((n - 1) * width, (n * width) as int),
        ) + seq![NEWLINE]
    }
}

/// The three header lines: marker, dimensions, maximum channel value.
pub open spec fn header_text(width: nat, height: nat) -> Seq<u8> {
    seq![MARKER_P, MARKER_3, NEWLINE] + decimal(width) + seq![SPACE] + decimal(height) + seq![
        NEWLINE,
    ] + decimal(MAX_CHANNEL as nat) + seq![NEWLINE]
}

/// The whole image text of a `width` x `height` row-major grid.
pub open spec fn ppm_text(width: nat, height: nat, cells: Seq<Rgb8>) -> Seq<u8> {
    header_text(width, height) + rows_text(cells, width, height)
}

/// Append the decimal digits of `n`.
fn push_decimal(out: &mut Vec<u8>, n: usize)
    ensures
        final(out)@ == old(out)@ + decimal(n as nat),
    decreases n,
{
    let ghost start = out@;
    if n >= 10 {
        push_decimal(out, n / 10);
    }
    out.push(DIGIT_ZERO + (n % 10) as u8);
    proof {
        if n >= 10 {
            assert(out@ =~= start + decimal(n as nat));
        } else {
            assert(out@ =~= start + decimal(n as nat));
        }
    }
}

/// Append the text of one pixel.
fn push_pixel(out: &mut Vec<u8>, p: Rgb8)
    ensures
        final(out)@ == old(out)@ + pixel_text(p),
{
    let ghost start = out@;
    push_decimal(out, p.red as usize);
    out.push(SPACE);
    push_decimal(out, p.green as usize);
    out.push(SPACE);
    push_decimal(out, p.blue as usize);
    out.push(SPACE);
    assert(out@ =~= start + pixel_text(p));
}

impl Canvas<Rgb8> {
    /// The image text of this grid.
    pub fn to_ppm(&self) -> (r: Vec<u8>)
        requires
            self.wf(),
        ensures
            r@ == ppm_text(self.width(), self.height(), self.cells()),
    {
        let width = self.width_of();
        let height = self.height_of();
        let cells = self.pixels();
        proof {
            self.lemma_cells_len();
        }
        let mut out: Vec<u8> = Vec::new();
        out.push(MARKER_P);
        out.push(MARKER_3);
        out.push(NEWLINE);
        push_decimal(&mut out, width);
        out.push(SPACE);
        push_decimal(&mut out, height);
        out.push(NEWLINE);
        push_decimal(&mut out, MAX_CHANNEL as usize);
        out.push(NEWLINE);
        let ghost header = header_text(width as nat, height as nat);
        assert(out@ =~= header);
        let mut row: usize = 0;
        while row < height
            invariant
                row <= height,
                cells@.len() == width * height,
                width * height <= usize::MAX,
                out@ == header + rows_text(cells@, width as nat, row as nat),
            decreases height - row,
        {
            assert(row * width + width <= width * height) by (nonlinear_arith)
                requires
                    row < height,
            ;
            let start: usize = row * width;
            let ghost before = out@;
            let mut column: usize = 0;
            while column < width
                invariant
                    column <= width,
                    start + width <= cells@.len(),
                    cells@.len() <= usize::MAX,
                    out@ == before + pixels_text(cells@.subrange(start as int, start + column)),
                decreases width - column,
            {
                let p = cells[start + column];
                push_pixel(&mut out, p);
                proof {
                    let s = cells@.subrange(start as int, start + column + 1);
                    assert(s.drop_last() =~= cells@.subrange(start as int, start + column));
                    assert(out@ =~= before + pixels_text(s));
                }
                column = column + 1;
            }
            out.push(NEWLINE);
            proof {
                assert(((row + 1) as nat - 1) * width == start) by (nonlinear_arith)
                    requires
                        start == row * width,
                ;
                assert((row + 1) as nat * width == start + width) by (nonlinear_arith)
                    requires
                        start == row * width,
                ;
                assert(out@ =~= header + rows_text(cells@, width as nat, (row + 1) as nat));
            }
            row = row + 1;
        }
        out
    }
}

} // verus!
