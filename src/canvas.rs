use itertools::Itertools;
use vstd::arithmetic::div_mod::{lemma_fundamental_div_mod, lemma_fundamental_div_mod_converse};
use vstd::prelude::*;

use crate::ppm::{
    ends_row, ppm_data, ppm_header, ppm_lines, push_decimal, push_sample, samples,
    MAX_COLOR_VALUE, NEWLINE, SPACE,
};

verus! {

/// A rectangular grid of pixels, stored row by row.
pub struct Canvas<P> {
    pub width: usize,
    pub height: usize,
    pixels: Vec<P>,
}

/// A pixel quantized to one byte per channel.
#[derive(Clone, Copy, Debug, PartialEq, Eq, Structural)]
pub struct Rgb8 {
    pub red: u8,
    pub green: u8,
    pub blue: u8,
}

/// Row-major position of the pixel at column `x` of row `y`.
pub open spec fn pixel_index(width: int, x: int, y: int) -> int {
    y * width + x
}

proof fn lemma_index_in_bounds(width: int, height: int, x: int, y: int)
    requires
        0 <= x < width,
        0 <= y < height,
    ensures
        0 <= pixel_index(width, x, y) < width * height,
{
    assert(0 <= y * width) by (nonlinear_arith)
        requires
            0 <= y,
            0 <= width,
    ;
    assert(y * width + width <= height * width) by (nonlinear_arith)
        requires
            y + 1 <= height,
            0 <= width,
    ;
}

/// The abstract content of a canvas: its size and its pixels, row by row.
pub struct CanvasView<P> {
    pub width: nat,
    pub height: nat,
    pub pixels: Seq<P>,
}

impl<P> CanvasView<P> {
    pub open spec fn wf(&self) -> bool {
        &&& self.pixels.len() == self.width * self.height
        &&& self.width * self.height <= usize::MAX
    }

    /// The pixel at column `x` of row `y`.
    pub open spec fn pixel(&self, x: int, y: int) -> P {
        self.pixels[pixel_index(self.width as int, x, y)]
    }
}

impl<P> View for Canvas<P> {
    type V = CanvasView<P>;

    closed spec fn view(&self) -> CanvasView<P> {
        CanvasView { width: self.width as nat, height: self.height as nat, pixels: self.pixels@ }
    }
}

/// The position that the pixel of scheduling slot `i` gets when the rows hold
/// `height` pixels each and columns are walked outermost.
pub open spec fn slot_position(height: nat, i: int) -> (usize, usize) {
    ((i / height as int) as usize, (i % height as int) as usize)
}

/// Relies on itertools' `Itertools::cartesian_product` over two ranges: every
/// pair, the first range outermost, the second innermost.
#[verifier::external_body]
fn range_product(outer: usize, inner: usize) -> (r: Vec<(usize, usize)>)
    requires
        outer * inner <= usize::MAX,
    ensures
        r@.len() == outer * inner,
        forall|i: int| 0 <= i < r@.len() ==> r@[i] == slot_position(inner as nat, i),
{
    (0..outer).cartesian_product(0..inner).collect()
}

proof fn lemma_slot_of_position(width: nat, height: nat, x: int, y: int)
    requires
        0 <= x < width,
        0 <= y < height,
    ensures
        0 <= x * height + y < width * height,
        slot_position(height, x * height + y) == (x as usize, y as usize),
{
    lemma_fundamental_div_mod_converse(x * height + y, height as int, x, y);
    assert(x * height + height <= width * height) by (nonlinear_arith)
        requires
            x + 1 <= width,
    ;
    assert(0 <= x * height) by (nonlinear_arith)
        requires
            0 <= x,
    ;
}

proof fn lemma_slots_distinct(width: nat, height: nat, i: int, j: int)
    requires
        0 <= i < width * height,
        0 <= j < width * height,
        i != j,
        width * height <= usize::MAX,
        height <= usize::MAX,
    ensures
        slot_position(height, i) != slot_position(height, j),
{
    assert(height > 0) by (nonlinear_arith)
        requires
            0 <= i < width * height,
    ;
    let d = height as int;
    lemma_fundamental_div_mod(i, d);
    lemma_fundamental_div_mod(j, d);
    assert(i / d <= i && j / d <= j) by (nonlinear_arith)
        requires
            0 <= i,
            0 <= j,
            d > 0,
    ;
    assert(0 <= i % d < d && 0 <= j % d < d);
}

impl<P: Copy> Canvas<P> {
    /// Every pixel position `(x, y)` of the canvas in the order pixels are
    /// scheduled for rendering: columns outermost. Each position comes
    /// exactly once.
    pub fn pixel_coordinates(&self) -> (r: Vec<(usize, usize)>)
        requires
            self@.wf(),
        ensures
            r@.len() == self@.width * self@.height,
            forall|i: int| 0 <= i < r@.len() ==> r@[i] == slot_position(self@.height, i),
            forall|x: int, y: int|
                0 <= x < self@.width && 0 <= y < self@.height ==> #[trigger] r@[x * self@.height + y]
                    == (x as usize, y as usize),
            forall|i: int, j: int|
                0 <= i < r@.len() && 0 <= j < r@.len() && i != j ==> #[trigger] r@[i] != #[trigger] r@[j],
    {
        let r = range_product(self.width, self.height);
        proof {
            assert forall|x: int, y: int|
                0 <= x < self@.width && 0 <= y < self@.height implies #[trigger] r@[x * self@.height + y]
                    == (x as usize, y as usize) by {
                lemma_slot_of_position(self@.width, self@.height, x, y);
            }
            assert forall|i: int, j: int|
                0 <= i < r@.len() && 0 <= j < r@.len() && i != j implies #[trigger] r@[i]
                    != #[trigger] r@[j] by {
                lemma_slots_distinct(self@.width, self@.height, i, j);
            }
        }
        r
    }

    /// A canvas of `width` by `height` pixels, each set to `fill`.
    pub fn new(width: usize, height: usize, fill: P) -> (r: Self)
        requires
            width * height <= usize::MAX,
        ensures
            r@.wf(),
            r@.width == width,
            r@.height == height,
            forall|i: int| 0 <= i < r@.pixels.len() ==> r@.pixels[i] == fill,
    {
        let n: usize = width * height;
        let mut pixels: Vec<P> = Vec::with_capacity(n);
        let mut i: usize = 0;
        while i < n
            invariant
                i <= n,
                pixels@.len() == i,
                forall|j: int| 0 <= j < i ==> pixels@[j] == fill,
            decreases n - i,
        {
            pixels.push(fill);
            i = i + 1;
        }
        Canvas { width, height, pixels }
    }

    fn get_pixel_index(&self, x: usize, y: usize) -> (r: usize)
        requires
            self@.wf(),
            x < self@.width,
            y < self@.height,
        ensures
            r == pixel_index(self@.width as int, x as int, y as int),
            r < self@.pixels.len(),
    {
        proof {
            lemma_index_in_bounds(self.width as int, self.height as int, x as int, y as int);
        }
        y * self.width + x
    }

    /// The pixel at column `x` of row `y`.
    pub fn get_pixel_color(&self, x: usize, y: usize) -> (r: P)
        requires
            self@.wf(),
            x < self@.width,
            y < self@.height,
        ensures
            r == self@.pixel(x as int, y as int),
    {
        let index = self.get_pixel_index(x, y);
        self.pixels[index]
    }

    /// Sets the pixel at column `x` of row `y`; every other pixel is kept.
    pub fn set_pixel_color(&mut self, x: usize, y: usize, color: P)
        requires
            old(self)@.wf(),
            x < old(self)@.width,
            y < old(self)@.height,
        ensures
            final(self)@.wf(),
            final(self)@.width == old(self)@.width,
            final(self)@.height == old(self)@.height,
            final(self)@.pixels == old(self)@.pixels.update(
                pixel_index(old(self)@.width as int, x as int, y as int),
                color,
            ),
    {
        let index = self.get_pixel_index(x, y);
        self.pixels.set(index, color);
    }
}

impl Canvas<Rgb8> {
    fn create_ppm_header(&self) -> (r: Vec<u8>)
        ensures
            r@ == ppm_header(self@.width, self@.height),
    {
        let mut header: Vec<u8> = Vec::new();
        // The magic number of a plain PPM image.
        header.push(80);
        header.push(51);
        header.push(NEWLINE);
        push_decimal(&mut header, self.width);
        header.push(SPACE);
        push_decimal(&mut header, self.height);
        header.push(NEWLINE);
        push_decimal(&mut header, MAX_COLOR_VALUE as usize);
        header.push(NEWLINE);
        proof {
            assert(header@ =~= ppm_header(self@.width, self@.height));
        }
        header
    }

    fn create_ppm_pixel_data(&self) -> (r: Vec<u8>)
        requires
            self@.wf(),
        ensures
            r@ == ppm_data(self@.width, self@.pixels),
    {
        let ghost s = samples(self.pixels@);
        let ghost w = self@.width;
        let n = self.pixels.len();
        proof {
            assert(self@.pixels == self.pixels@);
            if w == 0 {
                assert(w * self@.height == 0) by (nonlinear_arith)
                    requires
                        w == 0,
                ;
            }
        }
        let mut data: Vec<u8> = Vec::new();
        let mut count: u8 = 0;
        let mut p: usize = 0;
        while p < n
            invariant
                n == self.pixels@.len(),
                s == samples(self.pixels@),
                w == self.width,
                w > 0 || n == 0,
                p <= n,
                data@ == ppm_lines(s, w, 3 * p as nat).0,
                count == ppm_lines(s, w, 3 * p as nat).1,
                count + 2 <= crate::ppm::LINE_LIMIT,
            decreases n - p,
        {
            let pixel = self.pixels[p];
            let row_end = p % self.width == self.width - 1;
            let ghost k = 3 * p as nat;
            proof {
                assert(s[k as int] == pixel.red);
                assert(s[k + 1int] == pixel.green);
                assert(s[k + 2int] == pixel.blue);
                assert(ends_row(w, k + 2int) == row_end);
            }
            count = push_sample(&mut data, count, pixel.red, false);
            assert(data@ == ppm_lines(s, w, k + 1).0 && count == ppm_lines(s, w, k + 1).1);
            count = push_sample(&mut data, count, pixel.green, false);
            assert(data@ == ppm_lines(s, w, k + 2).0 && count == ppm_lines(s, w, k + 2).1);
            count = push_sample(&mut data, count, pixel.blue, row_end);
            assert(data@ == ppm_lines(s, w, k + 3).0 && count == ppm_lines(s, w, k + 3).1);
            p = p + 1;
        }
        data
    }

    /// The canvas as a plain PPM image: the header, then three decimal samples
    /// per pixel, row by row, with lines broken at the end of each row and
    /// before they grow too long.
    pub fn to_ppm(&self) -> (r: Vec<u8>)
        requires
            self@.wf(),
        ensures
            r@ == ppm_header(self@.width, self@.height) + ppm_data(self@.width, self@.pixels),
    {
        let mut ppm = self.create_ppm_header();
        let mut pixel_data = self.create_ppm_pixel_data();
        ppm.append(&mut pixel_data);
        ppm
    }
}

} // verus!
