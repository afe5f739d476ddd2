//! Colours, pixels and the raster.
//!
//! Colour channels are fixed-point scalars, additive and unclamped; colour
//! arithmetic saturates at the representable range instead of overflowing,
//! so accumulating light over any number of sources is total. Clamping to
//! the displayable range happens only when a colour is quantised to a
//! `Pixel` for export.

use vstd::prelude::*;
use crate::fx::{floor_div, fmul_s, Fx, SCALE};

verus! {

/// Saturation at the `i64` range.
pub open spec fn sat_i64(x: int) -> int {
    if x > i64::MAX {
        i64::MAX as int
    } else if x < i64::MIN {
        i64::MIN as int
    } else {
        x
    }
}

/// A saturating fixed-point product.
pub open spec fn sat_fmul_s(a: int, b: int) -> int {
    sat_i64(fmul_s(a, b))
}

/// A display channel: `floor(255 * c)` clamped to one byte.
pub open spec fn pixel_of(c: int) -> int {
    let v = floor_div(255 * c, SCALE as int);
    if v < 0 {
        0
    } else if v > 255 {
        255
    } else {
        v
    }
}

/// The all-black colour as a spec value.
pub open spec fn black_s() -> Colour {
    Colour { red: Fx { raw: 0 }, green: Fx { raw: 0 }, blue: Fx { raw: 0 } }
}

/// A colour scaled channel-wise, saturating.
pub open spec fn colour_scale_s(c: Colour, f: int) -> Colour {
    Colour {
        red: Fx { raw: sat_fmul_s(c.red@, f) as i64 },
        green: Fx { raw: sat_fmul_s(c.green@, f) as i64 },
        blue: Fx { raw: sat_fmul_s(c.blue@, f) as i64 },
    }
}

/// The channel-wise sum of two colours, saturating.
pub open spec fn colour_add_s(a: Colour, b: Colour) -> Colour {
    Colour {
        red: Fx { raw: sat_i64(a.red@ + b.red@) as i64 },
        green: Fx { raw: sat_i64(a.green@ + b.green@) as i64 },
        blue: Fx { raw: sat_i64(a.blue@ + b.blue@) as i64 },
    }
}

/// Saturating fixed-point multiply, total on all inputs.
pub(crate) fn sat_mul(a: Fx, b: Fx) -> (r: Fx)
    ensures
        r@ == sat_fmul_s(a@, b@),
{
    proof {
        assert((a.raw as int) * (b.raw as int) < i128::MAX
            && i128::MIN < (a.raw as int) * (b.raw as int)) by (nonlinear_arith)
            requires
                i64::MIN <= a.raw as int <= i64::MAX,
                i64::MIN <= b.raw as int <= i64::MAX,
        ;
    }
    let p: i128 = (a.raw as i128) * (b.raw as i128);
    let q: i128 = crate::fx::div_floor_by_scale(p);
    if q > i64::MAX as i128 {
        Fx { raw: i64::MAX }
    } else if q < i64::MIN as i128 {
        Fx { raw: i64::MIN }
    } else {
        Fx { raw: q as i64 }
    }
}

/// Saturating addition of raw channel values.
fn sat_add(a: Fx, b: Fx) -> (r: Fx)
    ensures
        r@ == sat_i64(a@ + b@),
{
    match a.raw.checked_add(b.raw) {
        Some(v) => Fx { raw: v },
        None => {
            if a.raw >= 0 {
                Fx { raw: i64::MAX }
            } else {
                Fx { raw: i64::MIN }
            }
        },
    }
}

/// An additive colour of three fixed-point channels, nominally in
/// `[0, 1]` but unclamped until export.
#[derive(Clone, Copy, PartialEq, Eq, Structural, Debug)]
pub struct Colour {
    pub red: Fx,
    pub green: Fx,
    pub blue: Fx,
}

impl Colour {
    pub fn black() -> (r: Colour)
        ensures
            r.red@ == 0 && r.green@ == 0 && r.blue@ == 0,
    {
        Colour { red: Fx::zero(), green: Fx::zero(), blue: Fx::zero() }
    }

    pub fn white() -> (r: Colour)
        ensures
            r.red@ == SCALE && r.green@ == SCALE && r.blue@ == SCALE,
    {
        Colour { red: Fx::one(), green: Fx::one(), blue: Fx::one() }
    }

    /// Each channel scaled by `factor`, saturating.
    pub fn scale(&self, factor: Fx) -> (r: Colour)
        ensures
            r.red@ == sat_fmul_s(self.red@, factor@),
            r.green@ == sat_fmul_s(self.green@, factor@),
            r.blue@ == sat_fmul_s(self.blue@, factor@),
    {
        Colour {
            red: sat_mul(self.red, factor),
            green: sat_mul(self.green, factor),
            blue: sat_mul(self.blue, factor),
        }
    }

    /// Channel-wise sum, saturating.
    pub fn add(self, rhs: Colour) -> (r: Colour)
        ensures
            r.red@ == sat_i64(self.red@ + rhs.red@),
            r.green@ == sat_i64(self.green@ + rhs.green@),
            r.blue@ == sat_i64(self.blue@ + rhs.blue@),
    {
        Colour {
            red: sat_add(self.red, rhs.red),
            green: sat_add(self.green, rhs.green),
            blue: sat_add(self.blue, rhs.blue),
        }
    }

    /// Quantises to one displayable byte per channel.
    pub fn to_pixel(&self) -> (r: Pixel)
        ensures
            r.red == pixel_of(self.red@),
            r.green == pixel_of(self.green@),
            r.blue == pixel_of(self.blue@),
    {
        Pixel {
            red: channel_to_byte(self.red),
            green: channel_to_byte(self.green),
            blue: channel_to_byte(self.blue),
        }
    }
}

fn channel_to_byte(c: Fx) -> (r: u8)
    ensures
        r == pixel_of(c@),
{
    let p: i128 = (c.raw as i128) * 255;
    let q: i128 = crate::fx::div_floor_by_scale(p);
    if q < 0 {
        0
    } else if q > 255 {
        255
    } else {
        q as u8
    }
}

/// The decimal digit characters.
pub open spec fn digit_char(d: int) -> char {
    if d == 0 { '0' }
    else if d == 1 { '1' }
    else if d == 2 { '2' }
    else if d == 3 { '3' }
    else if d == 4 { '4' }
    else if d == 5 { '5' }
    else if d == 6 { '6' }
    else if d == 7 { '7' }
    else if d == 8 { '8' }
    else { '9' }
}

/// The decimal representation of one byte value, without leading zeros.
pub open spec fn dec_u8(v: int) -> Seq<char> {
    if v < 10 {
        seq![digit_char(v)]
    } else if v < 100 {
        seq![digit_char(v / 10), digit_char(v % 10)]
    } else {
        seq![digit_char(v / 100), digit_char((v / 10) % 10), digit_char(v % 10)]
    }
}

fn push_digit(s: &mut String, d: u8)
    requires
        d < 10,
    ensures
        final(s)@ == old(s)@ + seq![digit_char(d as int)],
{
    proof {
        reveal_strlit("0");
        reveal_strlit("1");
        reveal_strlit("2");
        reveal_strlit("3");
        reveal_strlit("4");
        reveal_strlit("5");
        reveal_strlit("6");
        reveal_strlit("7");
        reveal_strlit("8");
        reveal_strlit("9");
    }
    if d == 0 {
        s.append("0");
    } else if d == 1 {
        s.append("1");
    } else if d == 2 {
        s.append("2");
    } else if d == 3 {
        s.append("3");
    } else if d == 4 {
        s.append("4");
    } else if d == 5 {
        s.append("5");
    } else if d == 6 {
        s.append("6");
    } else if d == 7 {
        s.append("7");
    } else if d == 8 {
        s.append("8");
    } else {
        s.append("9");
    }
    proof {
        assert(final(s)@ =~= old(s)@ + seq![digit_char(d as int)]);
    }
}

/// Appends the decimal representation of `v`.
fn push_u8_decimal(s: &mut String, v: u8)
    ensures
        final(s)@ == old(s)@ + dec_u8(v as int),
{
    if v >= 100 {
        push_digit(s, v / 100);
        push_digit(s, (v / 10) % 10);
        push_digit(s, v % 10);
        proof {
            assert(final(s)@ =~= old(s)@ + dec_u8(v as int));
        }
    } else if v >= 10 {
        push_digit(s, v / 10);
        push_digit(s, v % 10);
        proof {
            assert(final(s)@ =~= old(s)@ + dec_u8(v as int));
        }
    } else {
        push_digit(s, v);
        proof {
            assert(final(s)@ =~= old(s)@ + dec_u8(v as int));
        }
    }
}

/// One exportable pixel: three display bytes.
#[derive(Clone, Copy, PartialEq, Eq, Structural, Debug)]
pub struct Pixel {
    pub red: u8,
    pub green: u8,
    pub blue: u8,
}

impl Pixel {
    /// The pixel's channels as space-separated decimal text, as the
    /// plain-text image format writes them.
    pub fn to_string(&self) -> (r: String)
        ensures
            r@ == dec_u8(self.red as int) + seq![' '] + dec_u8(self.green as int) + seq![' ']
                + dec_u8(self.blue as int),
    {
        proof {
            reveal_strlit(" ");
        }
        let mut s = String::new();
        push_u8_decimal(&mut s, self.red);
        s.append(" ");
        push_u8_decimal(&mut s, self.green);
        s.append(" ");
        push_u8_decimal(&mut s, self.blue);
        proof {
            assert(s@ =~= dec_u8(self.red as int) + seq![' '] + dec_u8(self.green as int)
                + seq![' '] + dec_u8(self.blue as int));
        }
        s
    }
}

/// Raster dimensions, fixed at construction.
#[derive(Clone, Copy, PartialEq, Eq, Structural, Debug)]
pub struct Resolution {
    pub height: usize,
    pub width: usize,
}

/// A row-major grid of colours, one per pixel.
pub struct Image {
    pub pixels: Vec<Colour>,
    pub resolution: Resolution,
}

impl Image {
    pub open spec fn wf(&self) -> bool {
        &&& self.pixels@.len() == self.resolution.height * self.resolution.width
        &&& self.resolution.height * self.resolution.width <= usize::MAX
    }

    /// A raster of the given dimensions, all black.
    pub fn new(resolution: &Resolution) -> (r: Image)
        requires
            resolution.height * resolution.width <= usize::MAX,
        ensures
            r.wf(),
            r.resolution == *resolution,
            forall|i: int| 0 <= i < r.pixels@.len() ==> #[trigger] r.pixels@[i] == (Colour {
                red: Fx { raw: 0i64 },
                green: Fx { raw: 0i64 },
                blue: Fx { raw: 0i64 },
            }),
    {
        proof {
            assert(resolution.height * resolution.width >= 0) by (nonlinear_arith);
        }
        let n: usize = resolution.height * resolution.width;
        let mut pixels: Vec<Colour> = Vec::new();
        let mut i: usize = 0;
        while i < n
            invariant
                i <= n,
                pixels@.len() == i,
                forall|j: int| 0 <= j < i ==> #[trigger] pixels@[j] == (Colour {
                    red: Fx { raw: 0i64 },
                    green: Fx { raw: 0i64 },
                    blue: Fx { raw: 0i64 },
                }),
            decreases n - i,
        {
            pixels.push(Colour::black());
            i = i + 1;
        }
        Image { pixels, resolution: *resolution }
    }

    /// Reads the pixel at `(row, column)`, row-major.
    pub fn get(&self, row: usize, column: usize) -> (r: Colour)
        requires
            self.wf(),
            row < self.resolution.height,
            column < self.resolution.width,
        ensures
            r == self.pixels@[row * self.resolution.width + column],
    {
        proof {
            lemma_row_major_index(
                row as int,
                column as int,
                self.resolution.height as int,
                self.resolution.width as int,
            );
        }
        self.pixels[row * self.resolution.width + column]
    }

    /// Writes the pixel at `(row, column)`, row-major.
    pub fn set(&mut self, row: usize, column: usize, colour: Colour)
        requires
            old(self).wf(),
            row < old(self).resolution.height,
            column < old(self).resolution.width,
        ensures
            final(self).wf(),
            final(self).resolution == old(self).resolution,
            final(self).pixels@ == old(self).pixels@.update(
                row * old(self).resolution.width + column,
                colour,
            ),
    {
        proof {
            lemma_row_major_index(
                row as int,
                column as int,
                self.resolution.height as int,
                self.resolution.width as int,
            );
        }
        let idx: usize = row * self.resolution.width + column;
        self.pixels.set(idx, colour);
    }
}

/// The decimal representation of a non-negative value.
pub open spec fn dec_nat(v: int) -> Seq<char>
    decreases v,
    via dec_nat_decreases
{
    if v < 10 {
        seq![digit_char(v)]
    } else {
        dec_nat(v / 10) + seq![digit_char(v % 10)]
    }
}

#[via_fn]
proof fn dec_nat_decreases(v: int) {
    if v >= 10 {
        vstd::arithmetic::div_mod::lemma_fundamental_div_mod(v, 10);
        vstd::arithmetic::div_mod::lemma_mod_bound(v, 10);
    }
}

fn push_usize_decimal(s: &mut String, v: usize)
    ensures
        final(s)@ == old(s)@ + dec_nat(v as int),
    decreases v,
{
    proof {
        if v >= 10 {
            vstd::arithmetic::div_mod::lemma_fundamental_div_mod(v as int, 10);
            vstd::arithmetic::div_mod::lemma_mod_bound(v as int, 10);
        }
    }
    if v >= 10 {
        push_usize_decimal(s, v / 10);
        push_digit(s, (v % 10) as u8);
        proof {
            assert(final(s)@ =~= old(s)@ + dec_nat(v as int));
        }
    } else {
        push_digit(s, v as u8);
    }
}

/// The text of one pixel cell: the quantised channels, space-separated,
/// with the trailing tab the raster format writes after each cell.
pub open spec fn pixel_cell_s(c: Colour) -> Seq<char> {
    dec_u8(pixel_of(c.red@)) + seq![' '] + dec_u8(pixel_of(c.green@)) + seq![' '] + dec_u8(
        pixel_of(c.blue@),
    ) + seq!['\t']
}

/// The text of the first `n` cells of row `r`.
pub open spec fn row_text_s(img: Image, r: int, n: int) -> Seq<char>
    decreases n,
{
    if n <= 0 {
        Seq::empty()
    } else {
        row_text_s(img, r, n - 1) + pixel_cell_s(
            img.pixels@[r * img.resolution.width + (n - 1)],
        )
    }
}

/// The text of the first `n` rows, each closed by a line break.
pub open spec fn rows_text_s(img: Image, n: int) -> Seq<char>
    decreases n,
{
    if n <= 0 {
        Seq::empty()
    } else {
        rows_text_s(img, n - 1) + row_text_s(img, n - 1, img.resolution.width as int)
            + seq!['\n']
    }
}

/// The header of the plain-text raster format: the format tag, the
/// dimensions, and the maximum channel value.
pub open spec fn ppm_header_s(width: int, height: int) -> Seq<char> {
    seq!['P', '3', '\n'] + dec_nat(width) + seq![' '] + dec_nat(height) + seq!['\n'] + seq![
        '2',
        '5',
        '5',
        '\n',
    ]
}

impl Image {
    /// Renders the raster in the plain-text pixel-map format: the header,
    /// then one tab-terminated byte triplet per pixel, rows top to bottom,
    /// each row closed by a line break. Writing the text out is the
    /// caller's affair.
    pub fn to_ppm(&self) -> (r: String)
        requires
            self.wf(),
        ensures
            r@ == ppm_header_s(self.resolution.width as int, self.resolution.height as int)
                + rows_text_s(*self, self.resolution.height as int),
    {
        proof {
            reveal_strlit("P3\n");
            reveal_strlit(" ");
            reveal_strlit("\n255\n");
            reveal_strlit("\t");
            reveal_strlit("\n");
        }
        let mut s = String::new();
        s.append("P3\n");
        push_usize_decimal(&mut s, self.resolution.width);
        s.append(" ");
        push_usize_decimal(&mut s, self.resolution.height);
        s.append("\n255\n");
        proof {
            assert(s@ =~= ppm_header_s(
                self.resolution.width as int,
                self.resolution.height as int,
            ));
        }
        let ghost header = s@;
        let h = self.resolution.height;
        let w = self.resolution.width;
        let mut row: usize = 0;
        while row < h
            invariant
                self.wf(),
                h == self.resolution.height,
                w == self.resolution.width,
                row <= h,
                s@ == header + rows_text_s(*self, row as int),
            decreases h - row,
        {
            proof {
                reveal_strlit("\t");
                reveal_strlit("\n");
            }
            let ghost row_start = s@;
            let mut col: usize = 0;
            while col < w
                invariant
                    self.wf(),
                    h == self.resolution.height,
                    w == self.resolution.width,
                    row < h,
                    col <= w,
                    s@ == row_start + row_text_s(*self, row as int, col as int),
                decreases w - col,
            {
                proof {
                    reveal_strlit(" ");
                    reveal_strlit("\t");
                }
                let cell = self.get(row, col);
                let pixel = cell.to_pixel();
                let text = pixel.to_string();
                s.append(text.as_str());
                s.append("\t");
                proof {
                    assert(s@ =~= row_start + row_text_s(*self, row as int, col as int + 1));
                }
                col = col + 1;
            }
            s.append("\n");
            proof {
                assert(s@ =~= header + rows_text_s(*self, row as int + 1));
            }
            row = row + 1;
        }
        s
    }
}

/// A row-major index lands inside the raster.
pub proof fn lemma_row_major_index(row: int, column: int, height: int, width: int)
    requires
        0 <= row < height,
        0 <= column < width,
    ensures
        0 <= row * width + column < height * width,
{
    assert(0 <= row * width + column < height * width) by (nonlinear_arith)
        requires
            0 <= row < height,
            0 <= column < width,
    ;
}

} // verus!
