//! The raster image a render produces: a row-major grid of RGB bytes,
//! together with its textual serialization.

use vstd::prelude::*;
use vstd::string::StringExecFns;

verus! {

/// One image cell: red, green and blue, each already quantized to a byte.
#[derive(Clone, Copy, Debug, PartialEq, Eq, Structural)]
pub struct Pixel {
    pub r: u8,
    pub g: u8,
    pub b: u8,
}

impl Default for Pixel {
    /// A black pixel: every channel zero.
    fn default() -> (p: Pixel)
        ensures
            p.r == 0 && p.g == 0 && p.b == 0,
    {
        Pixel { r: 0, g: 0, b: 0 }
    }
}

/// A height x width grid of pixels, row-major, row 0 at the top.
pub struct Image {
    pub pixels: Vec<Vec<Pixel>>,
}

impl Image {
    /// Every row of the grid has the same length, so that one width
    /// describes the whole image.
    pub open spec fn rectangular(&self) -> bool {
        forall|i: int|
            0 <= i < self.pixels@.len() ==> (#[trigger] self.pixels@[i])@.len()
                == self.pixels@[0]@.len()
    }

    /// A fresh image of the given dimensions, every pixel black.
    pub fn new(height: usize, width: usize) -> (im: Image)
        ensures
            im.pixels@.len() == height,
            forall|i: int|
                0 <= i < height ==> (#[trigger] im.pixels@[i])@.len() == width,
            forall|i: int, j: int|
                0 <= i < height && 0 <= j < width ==> (#[trigger] im.pixels@[i]@[j])
                    == (Pixel { r: 0, g: 0, b: 0 }),
    {
        let mut pixels: Vec<Vec<Pixel>> = Vec::with_capacity(height);
        for _i in 0..height
            invariant
                pixels@.len() == _i,
                forall|i: int|
                    0 <= i < _i ==> (#[trigger] pixels@[i])@.len() == width,
                forall|i: int, j: int|
                    0 <= i < _i && 0 <= j < width ==> (#[trigger] pixels@[i]@[j])
                        == (Pixel { r: 0, g: 0, b: 0 }),
        {
            let mut row: Vec<Pixel> = Vec::with_capacity(width);
            for _j in 0..width
                invariant
                    row@.len() == _j,
                    forall|j: int|
                        0 <= j < _j ==> (#[trigger] row@[j]) == (Pixel { r: 0, g: 0, b: 0 }),
            {
                row.push(Pixel::default());
            }
            pixels.push(row);
        }
        Image { pixels }
    }

    /// A fresh image of the given dimensions, pixel (row, col) produced by
    /// the given function.
    pub fn new_with_init<F: Fn(usize, usize) -> Pixel>(
        height: usize,
        width: usize,
        init: F,
    ) -> (im: Image)
        requires
            forall|r: usize, c: usize|
                r < height && c < width ==> #[trigger] call_requires(init, (r, c)),
        ensures
            im.pixels@.len() == height,
            forall|i: int|
                0 <= i < height ==> (#[trigger] im.pixels@[i])@.len() == width,
            forall|r: usize, c: usize|
                r < height && c < width ==> #[trigger] call_ensures(
                    init,
                    (r, c),
                    im.pixels@[r as int]@[c as int],
                ),
    {
        let mut pixels: Vec<Vec<Pixel>> = Vec::with_capacity(height);
        for row in 0..height
            invariant
                forall|r: usize, c: usize|
                    r < height && c < width ==> #[trigger] call_requires(init, (r, c)),
                pixels@.len() == row,
                forall|i: int|
                    0 <= i < row ==> (#[trigger] pixels@[i])@.len() == width,
                forall|r: usize, c: usize|
                    r < row && c < width ==> #[trigger] call_ensures(
                        init,
                        (r, c),
                        pixels@[r as int]@[c as int],
                    ),
        {
            let mut line: Vec<Pixel> = Vec::with_capacity(width);
            for col in 0..width
                invariant
                    forall|r: usize, c: usize|
                        r < height && c < width ==> #[trigger] call_requires(init, (r, c)),
                    row < height,
                    line@.len() == col,
                    forall|c: usize|
                        c < col ==> #[trigger] call_ensures(init, (row, c), line@[c as int]),
            {
                line.push(init(row, col));
            }
            pixels.push(line);
        }
        Image { pixels }
    }

    /// The number of rows.
    pub fn height(&self) -> (h: usize)
        ensures
            h == self.pixels@.len(),
    {
        self.pixels.len()
    }

    /// The number of columns, read off the first row.
    pub fn width(&self) -> (w: usize)
        requires
            self.pixels@.len() > 0,
        ensures
            w == self.pixels@[0]@.len(),
    {
        self.pixels[0].len()
    }
}

/// The character for one decimal digit.
pub open spec fn digit_char(d: nat) -> char {
    if d == 0 {
        '0'
    } else if d == 1 {
        '1'
    } else if d == 2 {
        '2'
    } else if d == 3 {
        '3'
    } else if d == 4 {
        '4'
    } else if d == 5 {
        '5'
    } else if d == 6 {
        '6'
    } else if d == 7 {
        '7'
    } else if d == 8 {
        '8'
    } else {
        '9'
    }
}

/// The decimal notation of a number: its digits, most significant first,
/// with no leading zeros (a lone zero for 0).
pub open spec fn decimal(n: nat) -> Seq<char>
    decreases n,
{
    if n < 10 {
        seq![digit_char(n)]
    } else {
        decimal(n / 10).push(digit_char(n % 10))
    }
}

/// One channel value in a pixel line: its decimal notation, right-justified
/// with spaces to a width of three (every byte takes at most three digits).
pub open spec fn channel_cell(n: nat) -> Seq<char> {
    if n < 10 {
        seq![' ', ' '] + decimal(n)
    } else if n < 100 {
        seq![' '] + decimal(n)
    } else {
        decimal(n)
    }
}

/// The serialized form of one pixel: its three channel cells separated by
/// single spaces.
pub open spec fn pixel_text(p: Pixel) -> Seq<char> {
    channel_cell(p.r as nat) + seq![' '] + channel_cell(p.g as nat) + seq![' '] + channel_cell(
        p.b as nat,
    )
}

/// The serialized form of one row: one line per pixel, left to right.
pub open spec fn row_text(row: Seq<Pixel>) -> Seq<char>
    decreases row.len(),
{
    if row.len() == 0 {
        Seq::empty()
    } else {
        row_text(row.drop_last()) + pixel_text(row.last()) + seq!['\n']
    }
}

/// The serialized form of the whole grid: the rows' lines, top row first.
pub open spec fn grid_text(rows: Seq<Vec<Pixel>>) -> Seq<char>
    decreases rows.len(),
{
    if rows.len() == 0 {
        Seq::empty()
    } else {
        grid_text(rows.drop_last()) + row_text(rows.last()@)
    }
}

/// The serialized form of a whole image: the `P3` magic number, the width
/// and the height, the maximum channel value 255, then every pixel line in
/// row-major order, each part on its own line.
pub open spec fn image_text(im: Image) -> Seq<char> {
    seq!['P', '3', '\n'] + decimal(im.pixels@[0]@.len() as nat) + seq![' '] + decimal(
        im.pixels@.len() as nat,
    ) + seq!['\n', '2', '5', '5', '\n'] + grid_text(im.pixels@)
}

/// The one-character string for a decimal digit.
fn digit_str(d: u8) -> (s: &'static str)
    requires
        d < 10,
    ensures
        s@ == seq![digit_char(d as nat)],
{
    proof {
        reveal_strlit("0");
        reveal_strlit("1");
        reveal_strlit("2");
        reveal_strlit("3");
        reveal_strlit("4");
        reveal_strlit("5");
        reveal_strlit("6");
        reveal_strlit("7");
        reveal_strlit("8");
        reveal_strlit("9");
    }
    let s: &'static str = if d == 0 {
        "0"
    } else if d == 1 {
        "1"
    } else if d == 2 {
        "2"
    } else if d == 3 {
        "3"
    } else if d == 4 {
        "4"
    } else if d == 5 {
        "5"
    } else if d == 6 {
        "6"
    } else if d == 7 {
        "7"
    } else if d == 8 {
        "8"
    } else {
        "9"
    };
    assert(s@ =~= seq![digit_char(d as nat)]);
    s
}

/// The decimal notation of a number, as a string.
pub fn decimal_string(n: usize) -> (s: String)
    ensures
        s@ == decimal(n as nat),
    decreases n,
{
    if n < 10 {
        String::from_str(digit_str(n as u8))
    } else {
        assert(n / 10 < n && n % 10 < 10) by (nonlinear_arith)
            requires
                n >= 10,
        ;
        let mut s = decimal_string(n / 10);
        s.append(digit_str((n % 10) as u8));
        proof {
            assert(decimal(n as nat) =~= decimal(n as nat / 10) + seq![
                digit_char(n as nat % 10),
            ]);
        }
        s
    }
}

/// One channel value, right-justified with spaces to a width of three.
fn channel_cell_string(n: u8) -> (s: String)
    ensures
        s@ == channel_cell(n as nat),
{
    let mut s: String;
    if n < 10 {
        proof {
            reveal_strlit("  ");
        }
        s = String::from_str("  ");
        s.append(digit_str(n));
        assert(s@ =~= channel_cell(n as nat));
    } else if n < 100 {
        proof {
            reveal_strlit(" ");
            assert(1 <= n / 10 < 10 && n % 10 < 10) by (nonlinear_arith)
                requires
                    10 <= n < 100,
            ;
        }
        s = String::from_str(" ");
        s.append(digit_str(n / 10));
        s.append(digit_str(n % 10));
        proof {
            assert(decimal(n as nat) == decimal(n as nat / 10).push(digit_char(n as nat % 10)));
            assert(decimal(n as nat / 10) == seq![digit_char(n as nat / 10)]);
        }
        assert(s@ =~= channel_cell(n as nat));
    } else {
        proof {
            assert(10 <= n / 10 < 100 && n / 10 / 10 < 10 && n / 10 % 10 < 10 && n % 10 < 10)
                by (nonlinear_arith)
                requires
                    100 <= n < 256,
            ;
        }
        let q: u8 = n / 10;
        s = String::from_str(digit_str(q / 10));
        s.append(digit_str(q % 10));
        s.append(digit_str(n % 10));
        proof {
            assert(decimal(n as nat) == decimal(n as nat / 10).push(digit_char(n as nat % 10)));
            assert(decimal(n as nat / 10) == decimal(n as nat / 10 / 10).push(
                digit_char(n as nat / 10 % 10),
            ));
            assert(decimal(n as nat / 10 / 10) == seq![digit_char(n as nat / 10 / 10)]);
        }
        assert(s@ =~= channel_cell(n as nat));
    }
    s
}

/// A value about to be serialized in the text PPM format.
pub struct PPM<'a, T>(pub &'a T);

impl<'a> PPM<'a, Pixel> {
    /// The pixel's line in a PPM body: each channel right-justified to a
    /// width of three, the cells separated by single spaces.
    pub fn to_string(&self) -> (s: String)
        ensures
            s@ == pixel_text(*self.0),
    {
        proof {
            reveal_strlit(" ");
        }
        let mut s = channel_cell_string(self.0.r);
        s.append(" ");
        let g = channel_cell_string(self.0.g);
        s.append(g.as_str());
        s.append(" ");
        let b = channel_cell_string(self.0.b);
        s.append(b.as_str());
        assert(s@ =~= pixel_text(*self.0));
        s
    }
}

impl<'a> PPM<'a, Image> {
    /// The image in the text PPM format: the `P3` magic number, the
    /// dimensions, the maximum channel value, then one line per pixel in
    /// row-major order. The image must have at least one row, and every
    /// row must be as long as the first.
    pub fn to_string(&self) -> (s: String)
        requires
            self.0.pixels@.len() > 0,
            self.0.rectangular(),
        ensures
            s@ == image_text(*self.0),
    {
        proof {
            reveal_strlit("P3\n");
            reveal_strlit(" ");
            reveal_strlit("\n255\n");
        }
        let height = self.0.height();
        let width = self.0.width();
        let mut s = String::from_str("P3\n");
        let w_str = decimal_string(width);
        s.append(w_str.as_str());
        s.append(" ");
        let h_str = decimal_string(height);
        s.append(h_str.as_str());
        s.append("\n255\n");
        let ghost header = s@;
        assert(header =~= seq!['P', '3', '\n'] + decimal(width as nat) + seq![' '] + decimal(
            height as nat,
        ) + seq!['\n', '2', '5', '5', '\n']);
        for row in 0..height
            invariant
                height == self.0.pixels@.len(),
                self.0.rectangular(),
                width == self.0.pixels@[0]@.len(),
                s@ == header + grid_text(self.0.pixels@.take(row as int)),
        {
            for col in 0..width
                invariant
                    height == self.0.pixels@.len(),
                    self.0.rectangular(),
                    width == self.0.pixels@[0]@.len(),
                    row < height,
                    s@ == header + grid_text(self.0.pixels@.take(row as int)) + row_text(
                        self.0.pixels@[row as int]@.take(col as int),
                    ),
            {
                let line = PPM(&self.0.pixels[row][col]).to_string();
                s.append(line.as_str());
                s.append("\n");
                proof {
                    reveal_strlit("\n");
                    let prow = self.0.pixels@[row as int]@;
                    assert(prow.len() == width);
                    assert(prow.take(col + 1).drop_last() =~= prow.take(col as int));
                    assert(prow.take(col + 1).last() == prow[col as int]);
                    assert(s@ =~= header + grid_text(self.0.pixels@.take(row as int)) + row_text(
                        prow.take(col + 1),
                    ));
                }
            }
            proof {
                let rows = self.0.pixels@;
                assert(rows.take(row + 1).drop_last() =~= rows.take(row as int));
                assert(rows[row as int]@.take(width as int) =~= rows[row as int]@);
                assert(s@ =~= header + grid_text(rows.take(row + 1)));
            }
        }
        proof {
            assert(self.0.pixels@.take(height as int) =~= self.0.pixels@);
        }
        s
    }
}

} // verus!
